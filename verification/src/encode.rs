//! A configuration as a document: the value that is written out when a
//! configuration is shown or compared.

use crate::config::{
    Assignment, AssignmentModel, BranchProtectionRule, Config, ConfigModel, Repo, RepoModel,
    RepoSettings, RuleModel, Team, TeamModel, User, UserModel, WebhookConfig, WebhookModel,
};
use crate::node::{entries_view, items_view, lemma_view_sequence, Node, Tree};
use crate::order::{Keyed, Ordered, sort_keyed, stable_sort};
use crate::text::{lemma_text_le_total, lemma_text_le_transitive, text_before_eq, text_le};
use crate::webhooks::{mapping_value, text_list, text_list_value, text_value};
use vstd::prelude::*;

verus! {

broadcast use vstd::std_specs::vec::group_vec_axioms;

impl Ordered for (Seq<char>, Tree) {
    open spec fn before_eq(&self, other: &Self) -> bool {
        text_le(self.0, other.0)
    }

    proof fn lemma_total(a: &Self, b: &Self) {
        lemma_text_le_total(a.0, b.0);
    }

    proof fn lemma_transitive(a: &Self, b: &Self, c: &Self) {
        lemma_text_le_transitive(a.0, b.0, c.0);
    }
}

impl Keyed for (String, Node) {
    fn precedes(&self, other: &Self) -> (r: bool) {
        text_before_eq(self.0.as_str(), other.0.as_str())
    }
}

/// The document of a webhook.
pub open spec fn webhook_tree(w: WebhookModel) -> Tree {
    Tree::Dict(
        seq![
            ("url"@, Tree::Text(w.url)),
            ("content_type"@, Tree::Text(w.content_type)),
            ("events"@, text_list(w.events)),
        ],
    )
}

/// The document of a webhook that may be absent.
pub open spec fn optional_webhook_tree(w: Option<WebhookModel>) -> Tree {
    match w {
        Some(w) => webhook_tree(w),
        None => Tree::Null,
    }
}

/// The document of a text that may be absent.
pub open spec fn optional_text_tree(s: Option<Seq<char>>) -> Tree {
    match s {
        Some(s) => Tree::Text(s),
        None => Tree::Null,
    }
}

/// The document of a branch protection rule.
pub open spec fn rule_tree(r: RuleModel) -> Tree {
    Tree::Dict(
        seq![
            ("pattern"@, Tree::Text(r.pattern)),
            ("enforce_admins"@, Tree::Bool(r.enforce_admins)),
            ("allow_deletions"@, Tree::Bool(r.allow_deletions)),
            ("allow_force_pushes"@, Tree::Bool(r.allow_force_pushes)),
        ],
    )
}

/// The document of a list of branch protection rules.
pub open spec fn rules_tree(rules: Seq<RuleModel>) -> Tree {
    Tree::List(Seq::new(rules.len(), |i: int| rule_tree(rules[i])))
}

/// The document of a repository: its fields, then what else it holds,
/// sorted by key; the settings sorted by key as well.
pub open spec fn repo_tree(r: RepoModel) -> Tree {
    Tree::Dict(
        seq![
            ("name"@, Tree::Text(r.name)),
            ("settings"@, Tree::Dict(stable_sort(r.settings))),
            ("visibility"@, optional_text_tree(r.visibility)),
            ("webhook"@, optional_webhook_tree(r.webhook)),
            ("branch_protections"@, rules_tree(r.branch_protections)),
        ] + stable_sort(r.extra),
    )
}

/// The document of a team.
pub open spec fn team_tree(t: TeamModel) -> Tree {
    Tree::Dict(seq![("name"@, Tree::Text(t.name)), ("members"@, text_list(t.members))])
}

/// The document of a user.
pub open spec fn user_tree(u: UserModel) -> Tree {
    Tree::Dict(seq![("login"@, Tree::Text(u.login)), ("role"@, Tree::Text(u.role))])
}

/// The document of an assignment.
pub open spec fn assignment_tree(a: AssignmentModel) -> Tree {
    Tree::Dict(
        seq![
            ("repo"@, Tree::Text(a.repo)),
            ("team"@, Tree::Text(a.team)),
            ("permission"@, Tree::Text(a.permission)),
        ],
    )
}

/// The document of a configuration: its fields, then what else it holds,
/// sorted by key.
pub open spec fn config_tree(c: ConfigModel) -> Tree {
    Tree::Dict(
        seq![
            ("org"@, Tree::Text(c.org)),
            ("repos"@, Tree::List(Seq::new(c.repos.len(), |i: int| repo_tree(c.repos[i])))),
            ("teams"@, Tree::List(Seq::new(c.teams.len(), |i: int| team_tree(c.teams[i])))),
            ("users"@, Tree::List(Seq::new(c.users.len(), |i: int| user_tree(c.users[i])))),
            (
                "assignments"@,
                Tree::List(
                    Seq::new(c.assignments.len(), |i: int| assignment_tree(c.assignments[i])),
                ),
            ),
            ("default_webhook"@, optional_webhook_tree(c.default_webhook)),
            ("default_branch_protections"@, rules_tree(c.default_branch_protections)),
        ] + stable_sort(c.extra),
    )
}

/// A list of values as a value.
pub fn sequence_value(items: Vec<Node>) -> (r: Node)
    ensures
        r@ == Tree::List(items_view(items@)),
{
    proof {
        lemma_view_sequence(items);
    }
    Node::Sequence(items)
}

/// The entries of a bag, sorted by key.
pub fn sorted_bag(bag: &RepoSettings) -> (r: Vec<(String, Node)>)
    ensures
        entries_view(r@) == stable_sort(bag@),
{
    let mut out: Vec<(String, Node)> = bag.clone().entries;
    proof {
        assert(out.deep_view() =~= bag@);
    }
    sort_keyed(&mut out);
    proof {
        assert(entries_view(out@) =~= out.deep_view());
    }
    out
}

impl WebhookConfig {
    /// The webhook as a document.
    pub fn to_node(&self) -> (r: Node)
        ensures
            r@ == webhook_tree(self@),
    {
        let entries: Vec<(String, Node)> = vec![
            ("url".to_string(), text_value(self.url.as_str())),
            ("content_type".to_string(), text_value(self.content_type.as_str())),
            ("events".to_string(), text_list_value(&self.events)),
        ];
        let r = mapping_value(entries);
        proof {
            assert(r@->Dict_0 =~= webhook_tree(self@)->Dict_0);
        }
        r
    }
}

/// The document of a webhook that may be absent.
pub fn optional_webhook_node(w: &Option<WebhookConfig>) -> (r: Node)
    ensures
        r@ == optional_webhook_tree(w.deep_view()),
{
    match w {
        Some(w) => w.to_node(),
        None => Node::Null,
    }
}

impl BranchProtectionRule {
    /// The rule as a document.
    pub fn to_node(&self) -> (r: Node)
        ensures
            r@ == rule_tree(self@),
    {
        let entries: Vec<(String, Node)> = vec![
            ("pattern".to_string(), text_value(self.pattern.as_str())),
            ("enforce_admins".to_string(), Node::Bool(self.enforce_admins)),
            ("allow_deletions".to_string(), Node::Bool(self.allow_deletions)),
            ("allow_force_pushes".to_string(), Node::Bool(self.allow_force_pushes)),
        ];
        let r = mapping_value(entries);
        proof {
            assert(r@->Dict_0 =~= rule_tree(self@)->Dict_0);
        }
        r
    }
}

/// The document of a list of branch protection rules.
pub fn rules_node(rules: &Vec<BranchProtectionRule>) -> (r: Node)
    ensures
        r@ == rules_tree(rules.deep_view()),
{
    let mut out: Vec<Node> = Vec::new();
    let mut i: usize = 0;
    while i < rules.len()
        invariant
            i <= rules.len(),
            out.len() == i,
            forall|k: int| 0 <= k < i ==> out@[k]@ == rule_tree(rules@[k]@),
        decreases rules.len() - i,
    {
        out.push(rules[i].to_node());
        i += 1;
    }
    proof {
        assert(items_view(out@) =~= rules_tree(rules.deep_view())->List_0);
    }
    sequence_value(out)
}

impl Repo {
    /// The repository as a document.
    pub fn to_node(&self) -> (r: Node)
        ensures
            r@ == repo_tree(self@),
    {
        let visibility: Node = match &self.visibility {
            Some(v) => text_value(v.as_str()),
            None => Node::Null,
        };
        let mut entries: Vec<(String, Node)> = vec![
            ("name".to_string(), text_value(self.name.as_str())),
            ("settings".to_string(), mapping_value(sorted_bag(&self.settings))),
            ("visibility".to_string(), visibility),
            ("webhook".to_string(), optional_webhook_node(&self.webhook)),
            ("branch_protections".to_string(), rules_node(&self.branch_protections)),
        ];
        let mut rest: Vec<(String, Node)> = sorted_bag(&self.extra);
        let ghost head = entries_view(entries@);
        let ghost tail = entries_view(rest@);
        entries.append(&mut rest);
        let r = mapping_value(entries);
        proof {
            assert(entries_view(entries@) =~= head + tail);
            assert(r@->Dict_0 =~= repo_tree(self@)->Dict_0);
        }
        r
    }
}

impl Team {
    /// The team as a document.
    pub fn to_node(&self) -> (r: Node)
        ensures
            r@ == team_tree(self@),
    {
        let entries: Vec<(String, Node)> = vec![
            ("name".to_string(), text_value(self.name.as_str())),
            ("members".to_string(), text_list_value(&self.members)),
        ];
        let r = mapping_value(entries);
        proof {
            assert(r@->Dict_0 =~= team_tree(self@)->Dict_0);
        }
        r
    }
}

impl User {
    /// The user as a document.
    pub fn to_node(&self) -> (r: Node)
        ensures
            r@ == user_tree(self@),
    {
        let entries: Vec<(String, Node)> = vec![
            ("login".to_string(), text_value(self.login.as_str())),
            ("role".to_string(), text_value(self.role.as_str())),
        ];
        let r = mapping_value(entries);
        proof {
            assert(r@->Dict_0 =~= user_tree(self@)->Dict_0);
        }
        r
    }
}

impl Assignment {
    /// The assignment as a document.
    pub fn to_node(&self) -> (r: Node)
        ensures
            r@ == assignment_tree(self@),
    {
        let entries: Vec<(String, Node)> = vec![
            ("repo".to_string(), text_value(self.repo.as_str())),
            ("team".to_string(), text_value(self.team.as_str())),
            ("permission".to_string(), text_value(self.permission.as_str())),
        ];
        let r = mapping_value(entries);
        proof {
            assert(r@->Dict_0 =~= assignment_tree(self@)->Dict_0);
        }
        r
    }
}

impl Config {
    /// The configuration as a document.
    pub fn to_node(&self) -> (r: Node)
        ensures
            r@ == config_tree(self@),
    {
        let ghost c = self@;
        let mut repos: Vec<Node> = Vec::new();
        let mut i: usize = 0;
        while i < self.repos.len()
            invariant
                i <= self.repos.len(),
                repos.len() == i,
                forall|k: int| 0 <= k < i ==> repos@[k]@ == repo_tree(self.repos@[k]@),
            decreases self.repos.len() - i,
        {
            repos.push(self.repos[i].to_node());
            i += 1;
        }
        let mut teams: Vec<Node> = Vec::new();
        let mut t: usize = 0;
        while t < self.teams.len()
            invariant
                t <= self.teams.len(),
                teams.len() == t,
                forall|k: int| 0 <= k < t ==> teams@[k]@ == team_tree(self.teams@[k]@),
            decreases self.teams.len() - t,
        {
            teams.push(self.teams[t].to_node());
            t += 1;
        }
        let mut users: Vec<Node> = Vec::new();
        let mut u: usize = 0;
        while u < self.users.len()
            invariant
                u <= self.users.len(),
                users.len() == u,
                forall|k: int| 0 <= k < u ==> users@[k]@ == user_tree(self.users@[k]@),
            decreases self.users.len() - u,
        {
            users.push(self.users[u].to_node());
            u += 1;
        }
        let mut assignments: Vec<Node> = Vec::new();
        let mut a: usize = 0;
        while a < self.assignments.len()
            invariant
                a <= self.assignments.len(),
                assignments.len() == a,
                forall|k: int|
                    0 <= k < a ==> assignments@[k]@ == assignment_tree(self.assignments@[k]@),
            decreases self.assignments.len() - a,
        {
            assignments.push(self.assignments[a].to_node());
            a += 1;
        }
        proof {
            assert(items_view(repos@) =~= Seq::new(c.repos.len(), |i: int| repo_tree(c.repos[i])));
            assert(items_view(teams@) =~= Seq::new(c.teams.len(), |i: int| team_tree(c.teams[i])));
            assert(items_view(users@) =~= Seq::new(c.users.len(), |i: int| user_tree(c.users[i])));
            assert(items_view(assignments@) =~= Seq::new(
                c.assignments.len(),
                |i: int| assignment_tree(c.assignments[i]),
            ));
        }
        let mut entries: Vec<(String, Node)> = vec![
            ("org".to_string(), text_value(self.org.as_str())),
            ("repos".to_string(), sequence_value(repos)),
            ("teams".to_string(), sequence_value(teams)),
            ("users".to_string(), sequence_value(users)),
            ("assignments".to_string(), sequence_value(assignments)),
            ("default_webhook".to_string(), optional_webhook_node(&self.default_webhook)),
            (
                "default_branch_protections".to_string(),
                rules_node(&self.default_branch_protections),
            ),
        ];
        let mut rest: Vec<(String, Node)> = sorted_bag(&self.extra);
        let ghost head = entries_view(entries@);
        let ghost tail = entries_view(rest@);
        entries.append(&mut rest);
        let r = mapping_value(entries);
        proof {
            assert(entries_view(entries@) =~= head + tail);
            assert(r@->Dict_0 =~= config_tree(c)->Dict_0);
        }
        r
    }
}

} // verus!
