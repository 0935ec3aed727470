//! Reading a configuration out of a document: which documents are
//! configurations, and which configuration each one is.

use crate::config::{
    Assignment, AssignmentModel, BranchProtectionRule, Config, ConfigModel, Repo, RepoModel,
    RepoSettings, RuleModel, Team, TeamModel, texts, User, UserModel, WebhookConfig, WebhookModel,
};
use crate::documents::{document, read_yaml, settle_read, yaml_document};
use crate::error::{AppError, ErrorModel, outcome};
use crate::merge::{merge, merge_values};
use crate::node::{
    dict_get, entries_view, find_entry, items_view, lemma_view_mapping, lemma_view_sequence, Node,
    Tree,
};
use crate::text::same_text;
use vstd::prelude::*;

verus! {

broadcast use vstd::std_specs::vec::group_vec_axioms;

/// The items of a list, if every one is there.
pub open spec fn all_some<T>(s: Seq<Option<T>>) -> Option<Seq<T>> {
    if forall|i: int| 0 <= i < s.len() ==> (#[trigger] s[i]) is Some {
        Some(Seq::new(s.len(), |i: int| s[i]->0))
    } else {
        None
    }
}

/// The text that a value is, if it is one.
pub open spec fn as_text(t: Tree) -> Option<Seq<char>> {
    match t {
        Tree::Text(s) => Some(s),
        _ => None,
    }
}

/// The text under a key that must be there.
pub open spec fn text_at(entries: Seq<(Seq<char>, Tree)>, key: Seq<char>) -> Option<Seq<char>> {
    match dict_get(entries, key) {
        Some(Tree::Text(s)) => Some(s),
        _ => None,
    }
}

/// The text under a key that may be missing or null.
pub open spec fn optional_text_at(entries: Seq<(Seq<char>, Tree)>, key: Seq<char>) -> Option<
    Option<Seq<char>>,
> {
    match dict_get(entries, key) {
        None => Some(None),
        Some(Tree::Null) => Some(None),
        Some(Tree::Text(s)) => Some(Some(s)),
        _ => None,
    }
}

/// The flag under a key; a missing one is not set.
pub open spec fn flag_at(entries: Seq<(Seq<char>, Tree)>, key: Seq<char>) -> Option<bool> {
    match dict_get(entries, key) {
        None => Some(false),
        Some(Tree::Bool(b)) => Some(b),
        _ => None,
    }
}

/// The items of the list under a key; null stands for the empty list, and
/// so does a missing key unless the list is required.
pub open spec fn items_at(entries: Seq<(Seq<char>, Tree)>, key: Seq<char>, required: bool) -> Option<
    Seq<Tree>,
> {
    match dict_get(entries, key) {
        None => if required {
            None
        } else {
            Some(Seq::empty())
        },
        Some(Tree::Null) => Some(Seq::empty()),
        Some(Tree::List(items)) => Some(items),
        _ => None,
    }
}

/// The bag under a key; null and a missing key stand for the empty bag.
pub open spec fn bag_at(entries: Seq<(Seq<char>, Tree)>, key: Seq<char>) -> Option<
    Seq<(Seq<char>, Tree)>,
> {
    match dict_get(entries, key) {
        None => Some(Seq::empty()),
        Some(Tree::Null) => Some(Seq::empty()),
        Some(Tree::Dict(bag)) => Some(bag),
        _ => None,
    }
}

/// The texts that the items of a list are.
pub open spec fn texts_of(items: Seq<Tree>) -> Option<Seq<Seq<char>>> {
    all_some(Seq::new(items.len(), |i: int| as_text(items[i])))
}

/// The texts of the list under a key.
pub open spec fn texts_at(entries: Seq<(Seq<char>, Tree)>, key: Seq<char>) -> Option<
    Seq<Seq<char>>,
> {
    match items_at(entries, key, true) {
        Some(items) => texts_of(items),
        None => None,
    }
}

/// The webhook that a document is.
pub open spec fn webhook_of(t: Tree) -> Option<WebhookModel> {
    match t {
        Tree::Dict(e) => match (text_at(e, "url"@), text_at(e, "content_type"@), texts_at(
            e,
            "events"@,
        )) {
            (Some(url), Some(content_type), Some(events)) => Some(
                WebhookModel { url, content_type, events },
            ),
            _ => None,
        },
        _ => None,
    }
}

/// The webhook under a key that may be missing or null.
pub open spec fn optional_webhook_at(entries: Seq<(Seq<char>, Tree)>, key: Seq<char>) -> Option<
    Option<WebhookModel>,
> {
    match dict_get(entries, key) {
        None => Some(None),
        Some(Tree::Null) => Some(None),
        Some(t) => match webhook_of(t) {
            Some(w) => Some(Some(w)),
            None => None,
        },
    }
}

/// The branch protection rule that a document is.
pub open spec fn rule_of(t: Tree) -> Option<RuleModel> {
    match t {
        Tree::Dict(e) => match (
            text_at(e, "pattern"@),
            flag_at(e, "enforce_admins"@),
            flag_at(e, "allow_deletions"@),
            flag_at(e, "allow_force_pushes"@),
        ) {
            (Some(pattern), Some(enforce_admins), Some(allow_deletions), Some(allow_force_pushes)) => Some(
                RuleModel { pattern, enforce_admins, allow_deletions, allow_force_pushes },
            ),
            _ => None,
        },
        _ => None,
    }
}

/// The rules of the list under a key.
pub open spec fn rules_at(entries: Seq<(Seq<char>, Tree)>, key: Seq<char>) -> Option<
    Seq<RuleModel>,
> {
    match items_at(entries, key, false) {
        Some(items) => all_some(Seq::new(items.len(), |i: int| rule_of(items[i]))),
        None => None,
    }
}

/// The fields of a repository that the model knows.
pub open spec fn is_repo_field(key: Seq<char>) -> bool {
    key == "name"@ || key == "settings"@ || key == "visibility"@ || key == "webhook"@ || key
        == "branch_protections"@
}

/// The fields of a configuration that the model knows.
pub open spec fn is_config_field(key: Seq<char>) -> bool {
    key == "org"@ || key == "repos"@ || key == "teams"@ || key == "users"@ || key
        == "assignments"@ || key == "default_webhook"@ || key == "default_branch_protections"@
}

/// Those of the first `upto` entries of a repository that the model does
/// not know.
pub open spec fn repo_extra(entries: Seq<(Seq<char>, Tree)>, upto: int) -> Seq<(Seq<char>, Tree)>
    decreases upto,
{
    if upto <= 0 {
        Seq::empty()
    } else if is_repo_field(entries[upto - 1].0) {
        repo_extra(entries, upto - 1)
    } else {
        repo_extra(entries, upto - 1).push(entries[upto - 1])
    }
}

/// Those of the first `upto` entries of a configuration that the model
/// does not know.
pub open spec fn config_extra(entries: Seq<(Seq<char>, Tree)>, upto: int) -> Seq<(Seq<char>, Tree)>
    decreases upto,
{
    if upto <= 0 {
        Seq::empty()
    } else if is_config_field(entries[upto - 1].0) {
        config_extra(entries, upto - 1)
    } else {
        config_extra(entries, upto - 1).push(entries[upto - 1])
    }
}

/// The repository that a document is.
pub open spec fn repo_of(t: Tree) -> Option<RepoModel> {
    match t {
        Tree::Dict(e) => match (
            text_at(e, "name"@),
            bag_at(e, "settings"@),
            optional_text_at(e, "visibility"@),
            optional_webhook_at(e, "webhook"@),
            rules_at(e, "branch_protections"@),
        ) {
            (Some(name), Some(settings), Some(visibility), Some(webhook), Some(branch_protections)) => Some(
                RepoModel {
                    name,
                    settings,
                    visibility,
                    webhook,
                    branch_protections,
                    extra: repo_extra(e, e.len() as int),
                },
            ),
            _ => None,
        },
        _ => None,
    }
}

/// The team that a document is.
pub open spec fn team_of(t: Tree) -> Option<TeamModel> {
    match t {
        Tree::Dict(e) => match (text_at(e, "name"@), texts_at(e, "members"@)) {
            (Some(name), Some(members)) => Some(TeamModel { name, members }),
            _ => None,
        },
        _ => None,
    }
}

/// The user that a document is.
pub open spec fn user_of(t: Tree) -> Option<UserModel> {
    match t {
        Tree::Dict(e) => match (text_at(e, "login"@), text_at(e, "role"@)) {
            (Some(login), Some(role)) => Some(UserModel { login, role }),
            _ => None,
        },
        _ => None,
    }
}

/// The assignment that a document is.
pub open spec fn assignment_of(t: Tree) -> Option<AssignmentModel> {
    match t {
        Tree::Dict(e) => match (text_at(e, "repo"@), text_at(e, "team"@), text_at(
            e,
            "permission"@,
        )) {
            (Some(repo), Some(team), Some(permission)) => Some(
                AssignmentModel { repo, team, permission },
            ),
            _ => None,
        },
        _ => None,
    }
}

/// The repositories of the list under a key.
pub open spec fn repos_at(entries: Seq<(Seq<char>, Tree)>, key: Seq<char>) -> Option<
    Seq<RepoModel>,
> {
    match items_at(entries, key, false) {
        Some(items) => all_some(Seq::new(items.len(), |i: int| repo_of(items[i]))),
        None => None,
    }
}

/// The teams of the list under a key.
pub open spec fn teams_at(entries: Seq<(Seq<char>, Tree)>, key: Seq<char>) -> Option<
    Seq<TeamModel>,
> {
    match items_at(entries, key, false) {
        Some(items) => all_some(Seq::new(items.len(), |i: int| team_of(items[i]))),
        None => None,
    }
}

/// The users of the list under a key.
pub open spec fn users_at(entries: Seq<(Seq<char>, Tree)>, key: Seq<char>) -> Option<
    Seq<UserModel>,
> {
    match items_at(entries, key, false) {
        Some(items) => all_some(Seq::new(items.len(), |i: int| user_of(items[i]))),
        None => None,
    }
}

/// The assignments of the list under a key.
pub open spec fn assignments_at(entries: Seq<(Seq<char>, Tree)>, key: Seq<char>) -> Option<
    Seq<AssignmentModel>,
> {
    match items_at(entries, key, false) {
        Some(items) => all_some(Seq::new(items.len(), |i: int| assignment_of(items[i]))),
        None => None,
    }
}

/// The configuration that a document is: a mapping with the organization
/// under `org`; lists, where there are any, of repositories, teams, users
/// and assignments; the defaults; and whatever else, kept as it is.
pub open spec fn config_of(t: Tree) -> Option<ConfigModel> {
    match t {
        Tree::Dict(e) => match (
            text_at(e, "org"@),
            repos_at(e, "repos"@),
            teams_at(e, "teams"@),
            users_at(e, "users"@),
            assignments_at(e, "assignments"@),
            optional_webhook_at(e, "default_webhook"@),
            rules_at(e, "default_branch_protections"@),
        ) {
            (
                Some(org),
                Some(repos),
                Some(teams),
                Some(users),
                Some(assignments),
                Some(default_webhook),
                Some(default_branch_protections),
            ) => Some(
                ConfigModel {
                    org,
                    repos,
                    teams,
                    users,
                    assignments,
                    default_webhook,
                    default_branch_protections,
                    extra: config_extra(e, e.len() as int),
                },
            ),
            _ => None,
        },
        _ => None,
    }
}

/// The value under a key.
fn get_at<'a>(entries: &'a Vec<(String, Node)>, key: &str) -> (r: Option<&'a Node>)
    ensures
        r.deep_view() == dict_get(entries_view(entries@), key@),
{
    match find_entry(entries, key) {
        Some(i) => Some(&entries[i].1),
        None => None,
    }
}

/// The text under a key that must be there.
fn read_text(entries: &Vec<(String, Node)>, key: &str) -> (r: Option<String>)
    ensures
        r.deep_view() == text_at(entries_view(entries@), key@),
{
    match get_at(entries, key) {
        Some(Node::String(s)) => Some(s.clone()),
        _ => None,
    }
}

/// The text under a key that may be missing or null.
fn read_optional_text(entries: &Vec<(String, Node)>, key: &str) -> (r: Option<Option<String>>)
    ensures
        r.deep_view() == optional_text_at(entries_view(entries@), key@),
{
    match get_at(entries, key) {
        None => Some(None),
        Some(Node::Null) => Some(None),
        Some(Node::String(s)) => Some(Some(s.clone())),
        _ => None,
    }
}

/// The flag under a key.
fn read_flag(entries: &Vec<(String, Node)>, key: &str) -> (r: Option<bool>)
    ensures
        r == flag_at(entries_view(entries@), key@),
{
    match get_at(entries, key) {
        None => Some(false),
        Some(Node::Bool(b)) => Some(*b),
        _ => None,
    }
}

/// The bag under a key.
fn read_bag(entries: &Vec<(String, Node)>, key: &str) -> (r: Option<RepoSettings>)
    ensures
        r.deep_view() == bag_at(entries_view(entries@), key@),
{
    match get_at(entries, key) {
        None => Some(RepoSettings::new()),
        Some(Node::Null) => Some(RepoSettings::new()),
        Some(Node::Mapping(bag)) => {
            proof {
                lemma_view_mapping(*bag);
            }
            let mut out: Vec<(String, Node)> = Vec::new();
            let mut i: usize = 0;
            while i < bag.len()
                invariant
                    i <= bag.len(),
                    out.len() == i,
                    forall|k: int|
                        0 <= k < i ==> out@[k].0@ == bag@[k].0@ && out@[k].1@ == bag@[k].1@,
                decreases bag.len() - i,
            {
                out.push((bag[i].0.clone(), bag[i].1.duplicate()));
                i += 1;
            }
            let r = RepoSettings { entries: out };
            proof {
                assert(r@ =~= entries_view(bag@));
            }
            Some(r)
        },
        _ => None,
    }
}

/// The list under a key, with no item where null or nothing stands for it.
fn read_items<'a>(entries: &'a Vec<(String, Node)>, key: &str, required: bool) -> (r: Option<
    Option<&'a Vec<Node>>,
>)
    ensures
        match r {
            Some(Some(items)) => items_at(entries_view(entries@), key@, required) == Some(
                items_view(items@),
            ),
            Some(None) => items_at(entries_view(entries@), key@, required) == Some(
                Seq::<Tree>::empty(),
            ),
            None => items_at(entries_view(entries@), key@, required) is None,
        },
{
    match get_at(entries, key) {
        None => if required {
            None
        } else {
            Some(None)
        },
        Some(Node::Null) => Some(None),
        Some(Node::Sequence(items)) => {
            proof {
                lemma_view_sequence(*items);
            }
            Some(Some(items))
        },
        _ => None,
    }
}

/// The texts that the items of a list are.
fn read_texts(items: &Vec<Node>) -> (r: Option<Vec<String>>)
    ensures
        match r {
            Some(v) => texts_of(items_view(items@)) == Some(texts(v@)),
            None => texts_of(items_view(items@)) is None,
        },
{
    let ghost all = Seq::new(items_view(items@).len(), |i: int| as_text(items_view(items@)[i]));
    let mut out: Vec<String> = Vec::new();
    let mut i: usize = 0;
    while i < items.len()
        invariant
            i <= items.len(),
            out.len() == i,
            all == Seq::new(items_view(items@).len(), |i: int| as_text(items_view(items@)[i])),
            forall|k: int| 0 <= k < i ==> all[k] == Some(out@[k]@),
        decreases items.len() - i,
    {
        match &items[i] {
            Node::String(s) => {
                out.push(s.clone());
            },
            _ => {
                proof {
                    assert(all[i as int] is None);
                }
                return None;
            },
        }
        i += 1;
    }
    proof {
        assert(all_some(all)->0 =~= texts(out@));
    }
    Some(out)
}

/// The texts of the list under a key.
fn read_texts_at(entries: &Vec<(String, Node)>, key: &str) -> (r: Option<Vec<String>>)
    ensures
        match r {
            Some(v) => texts_at(entries_view(entries@), key@) == Some(texts(v@)),
            None => texts_at(entries_view(entries@), key@) is None,
        },
{
    match read_items(entries, key, true) {
        Some(Some(items)) => read_texts(items),
        Some(None) => {
            let none: Vec<String> = Vec::new();
            proof {
                let empty = Seq::<Tree>::empty();
                assert(all_some(Seq::new(empty.len(), |i: int| as_text(empty[i])))->0 =~= texts(
                    none@,
                ));
            }
            Some(none)
        },
        None => None,
    }
}

impl WebhookConfig {
    /// Reads a webhook out of a document.
    pub fn from_node(node: &Node) -> (r: Option<WebhookConfig>)
        ensures
            r.deep_view() == webhook_of(node@),
    {
        match node {
            Node::Mapping(entries) => {
                proof {
                    lemma_view_mapping(*entries);
                }
                let url: String = match read_text(entries, "url") {
                    Some(s) => s,
                    None => {
                        return None;
                    },
                };
                let content_type: String = match read_text(entries, "content_type") {
                    Some(s) => s,
                    None => {
                        return None;
                    },
                };
                match read_texts_at(entries, "events") {
                    Some(events) => Some(WebhookConfig { url, content_type, events }),
                    None => None,
                }
            },
            _ => None,
        }
    }
}

/// The webhook under a key that may be missing or null.
fn read_optional_webhook(entries: &Vec<(String, Node)>, key: &str) -> (r: Option<
    Option<WebhookConfig>,
>)
    ensures
        r.deep_view() == optional_webhook_at(entries_view(entries@), key@),
{
    match get_at(entries, key) {
        None => Some(None),
        Some(Node::Null) => Some(None),
        Some(node) => match WebhookConfig::from_node(node) {
            Some(w) => Some(Some(w)),
            None => None,
        },
    }
}

impl BranchProtectionRule {
    /// Reads a branch protection rule out of a document.
    pub fn from_node(node: &Node) -> (r: Option<BranchProtectionRule>)
        ensures
            r.deep_view() == rule_of(node@),
    {
        match node {
            Node::Mapping(entries) => {
                proof {
                    lemma_view_mapping(*entries);
                }
                match (
                    read_text(entries, "pattern"),
                    read_flag(entries, "enforce_admins"),
                    read_flag(entries, "allow_deletions"),
                    read_flag(entries, "allow_force_pushes"),
                ) {
                    (
                        Some(pattern),
                        Some(enforce_admins),
                        Some(allow_deletions),
                        Some(allow_force_pushes),
                    ) => Some(
                        BranchProtectionRule {
                            pattern,
                            enforce_admins,
                            allow_deletions,
                            allow_force_pushes,
                        },
                    ),
                    _ => None,
                }
            },
            _ => None,
        }
    }
}

/// The rules of the list under a key.
#[verifier::loop_isolation(false)]
fn read_rules(entries: &Vec<(String, Node)>, key: &str) -> (r: Option<Vec<BranchProtectionRule>>)
    ensures
        r.deep_view() == rules_at(entries_view(entries@), key@),
{
    let mut out: Vec<BranchProtectionRule> = Vec::new();
    match read_items(entries, key, false) {
        Some(Some(items)) => {
            let ghost all = Seq::new(
                items_view(items@).len(),
                |i: int| rule_of(items_view(items@)[i]),
            );
            let mut i: usize = 0;
            while i < items.len()
                invariant
                    i <= items.len(),
                    out.len() == i,
                    all == Seq::new(
                        items_view(items@).len(),
                        |i: int| rule_of(items_view(items@)[i]),
                    ),
                    forall|k: int| 0 <= k < i ==> all[k] == Some(out@[k]@),
                decreases items.len() - i,
            {
                match BranchProtectionRule::from_node(&items[i]) {
                    Some(rule) => {
                        out.push(rule);
                    },
                    None => {
                        proof {
                            assert(all[i as int] is None);
                        }
                        return None;
                    },
                }
                i += 1;
            }
            proof {
                assert(all_some(all)->0 =~= out.deep_view());
            }
            Some(out)
        },
        Some(None) => {
            proof {
                let empty = Seq::<Tree>::empty();
                assert(all_some(Seq::new(empty.len(), |i: int| rule_of(empty[i])))->0
                    =~= out.deep_view());
            }
            Some(out)
        },
        None => None,
    }
}

/// Tests whether a key is a field of a repository that the model knows.
fn repo_field(key: &str) -> (r: bool)
    ensures
        r == is_repo_field(key@),
{
    same_text(key, "name") || same_text(key, "settings") || same_text(key, "visibility")
        || same_text(key, "webhook") || same_text(key, "branch_protections")
}

/// Tests whether a key is a field of a configuration that the model knows.
fn config_field(key: &str) -> (r: bool)
    ensures
        r == is_config_field(key@),
{
    same_text(key, "org") || same_text(key, "repos") || same_text(key, "teams") || same_text(
        key,
        "users",
    ) || same_text(key, "assignments") || same_text(key, "default_webhook") || same_text(
        key,
        "default_branch_protections",
    )
}

impl Repo {
    /// Reads a repository out of a document.
    pub fn from_node(node: &Node) -> (r: Option<Repo>)
        ensures
            r.deep_view() == repo_of(node@),
    {
        match node {
            Node::Mapping(entries) => {
                proof {
                    lemma_view_mapping(*entries);
                }
                let ghost e = entries_view(entries@);
                let mut extra: Vec<(String, Node)> = Vec::new();
                let mut i: usize = 0;
                proof {
                    assert(entries_view(extra@) =~= repo_extra(e, 0));
                }
                while i < entries.len()
                    invariant
                        i <= entries.len(),
                        e == entries_view(entries@),
                        entries_view(extra@) == repo_extra(e, i as int),
                    decreases entries.len() - i,
                {
                    if !repo_field(entries[i].0.as_str()) {
                        let ghost before = entries_view(extra@);
                        let entry = (entries[i].0.clone(), entries[i].1.duplicate());
                        extra.push(entry);
                        proof {
                            assert(entries_view(extra@) =~= before.push(e[i as int]));
                        }
                    }
                    i += 1;
                }
                match (
                    read_text(entries, "name"),
                    read_bag(entries, "settings"),
                    read_optional_text(entries, "visibility"),
                    read_optional_webhook(entries, "webhook"),
                    read_rules(entries, "branch_protections"),
                ) {
                    (
                        Some(name),
                        Some(settings),
                        Some(visibility),
                        Some(webhook),
                        Some(branch_protections),
                    ) => Some(
                        Repo {
                            name,
                            settings,
                            visibility,
                            webhook,
                            branch_protections,
                            extra: RepoSettings { entries: extra },
                        },
                    ),
                    _ => None,
                }
            },
            _ => None,
        }
    }
}

impl Team {
    /// Reads a team out of a document.
    pub fn from_node(node: &Node) -> (r: Option<Team>)
        ensures
            r.deep_view() == team_of(node@),
    {
        match node {
            Node::Mapping(entries) => {
                proof {
                    lemma_view_mapping(*entries);
                }
                let name: String = match read_text(entries, "name") {
                    Some(s) => s,
                    None => {
                        return None;
                    },
                };
                match read_texts_at(entries, "members") {
                    Some(members) => Some(Team { name, members }),
                    None => None,
                }
            },
            _ => None,
        }
    }
}

impl User {
    /// Reads a user out of a document.
    pub fn from_node(node: &Node) -> (r: Option<User>)
        ensures
            r.deep_view() == user_of(node@),
    {
        match node {
            Node::Mapping(entries) => {
                proof {
                    lemma_view_mapping(*entries);
                }
                match (read_text(entries, "login"), read_text(entries, "role")) {
                    (Some(login), Some(role)) => Some(User { login, role }),
                    _ => None,
                }
            },
            _ => None,
        }
    }
}

impl Assignment {
    /// Reads an assignment out of a document.
    pub fn from_node(node: &Node) -> (r: Option<Assignment>)
        ensures
            r.deep_view() == assignment_of(node@),
    {
        match node {
            Node::Mapping(entries) => {
                proof {
                    lemma_view_mapping(*entries);
                }
                match (
                    read_text(entries, "repo"),
                    read_text(entries, "team"),
                    read_text(entries, "permission"),
                ) {
                    (Some(repo), Some(team), Some(permission)) => Some(
                        Assignment { repo, team, permission },
                    ),
                    _ => None,
                }
            },
            _ => None,
        }
    }
}

/// The repositories of the list under a key.
#[verifier::loop_isolation(false)]
fn read_repos(entries: &Vec<(String, Node)>, key: &str) -> (r: Option<Vec<Repo>>)
    ensures
        r.deep_view() == repos_at(entries_view(entries@), key@),
{
    let mut out: Vec<Repo> = Vec::new();
    match read_items(entries, key, false) {
        Some(Some(items)) => {
            let ghost all = Seq::new(
                items_view(items@).len(),
                |i: int| repo_of(items_view(items@)[i]),
            );
            let mut i: usize = 0;
            while i < items.len()
                invariant
                    i <= items.len(),
                    out.len() == i,
                    all == Seq::new(
                        items_view(items@).len(),
                        |i: int| repo_of(items_view(items@)[i]),
                    ),
                    forall|k: int| 0 <= k < i ==> all[k] == Some(out@[k]@),
                decreases items.len() - i,
            {
                match Repo::from_node(&items[i]) {
                    Some(repo) => {
                        out.push(repo);
                    },
                    None => {
                        proof {
                            assert(all[i as int] is None);
                        }
                        return None;
                    },
                }
                i += 1;
            }
            proof {
                assert(all_some(all)->0 =~= out.deep_view());
            }
            Some(out)
        },
        Some(None) => {
            proof {
                let empty = Seq::<Tree>::empty();
                assert(all_some(Seq::new(empty.len(), |i: int| repo_of(empty[i])))->0
                    =~= out.deep_view());
            }
            Some(out)
        },
        None => None,
    }
}

/// The teams of the list under a key.
#[verifier::loop_isolation(false)]
fn read_teams(entries: &Vec<(String, Node)>, key: &str) -> (r: Option<Vec<Team>>)
    ensures
        r.deep_view() == teams_at(entries_view(entries@), key@),
{
    let mut out: Vec<Team> = Vec::new();
    match read_items(entries, key, false) {
        Some(Some(items)) => {
            let ghost all = Seq::new(
                items_view(items@).len(),
                |i: int| team_of(items_view(items@)[i]),
            );
            let mut i: usize = 0;
            while i < items.len()
                invariant
                    i <= items.len(),
                    out.len() == i,
                    all == Seq::new(
                        items_view(items@).len(),
                        |i: int| team_of(items_view(items@)[i]),
                    ),
                    forall|k: int| 0 <= k < i ==> all[k] == Some(out@[k]@),
                decreases items.len() - i,
            {
                match Team::from_node(&items[i]) {
                    Some(team) => {
                        out.push(team);
                    },
                    None => {
                        proof {
                            assert(all[i as int] is None);
                        }
                        return None;
                    },
                }
                i += 1;
            }
            proof {
                assert(all_some(all)->0 =~= out.deep_view());
            }
            Some(out)
        },
        Some(None) => {
            proof {
                let empty = Seq::<Tree>::empty();
                assert(all_some(Seq::new(empty.len(), |i: int| team_of(empty[i])))->0
                    =~= out.deep_view());
            }
            Some(out)
        },
        None => None,
    }
}

/// The users of the list under a key.
#[verifier::loop_isolation(false)]
fn read_users(entries: &Vec<(String, Node)>, key: &str) -> (r: Option<Vec<User>>)
    ensures
        r.deep_view() == users_at(entries_view(entries@), key@),
{
    let mut out: Vec<User> = Vec::new();
    match read_items(entries, key, false) {
        Some(Some(items)) => {
            let ghost all = Seq::new(
                items_view(items@).len(),
                |i: int| user_of(items_view(items@)[i]),
            );
            let mut i: usize = 0;
            while i < items.len()
                invariant
                    i <= items.len(),
                    out.len() == i,
                    all == Seq::new(
                        items_view(items@).len(),
                        |i: int| user_of(items_view(items@)[i]),
                    ),
                    forall|k: int| 0 <= k < i ==> all[k] == Some(out@[k]@),
                decreases items.len() - i,
            {
                match User::from_node(&items[i]) {
                    Some(user) => {
                        out.push(user);
                    },
                    None => {
                        proof {
                            assert(all[i as int] is None);
                        }
                        return None;
                    },
                }
                i += 1;
            }
            proof {
                assert(all_some(all)->0 =~= out.deep_view());
            }
            Some(out)
        },
        Some(None) => {
            proof {
                let empty = Seq::<Tree>::empty();
                assert(all_some(Seq::new(empty.len(), |i: int| user_of(empty[i])))->0
                    =~= out.deep_view());
            }
            Some(out)
        },
        None => None,
    }
}

/// The assignments of the list under a key.
#[verifier::loop_isolation(false)]
fn read_assignments(entries: &Vec<(String, Node)>, key: &str) -> (r: Option<Vec<Assignment>>)
    ensures
        r.deep_view() == assignments_at(entries_view(entries@), key@),
{
    let mut out: Vec<Assignment> = Vec::new();
    match read_items(entries, key, false) {
        Some(Some(items)) => {
            let ghost all = Seq::new(
                items_view(items@).len(),
                |i: int| assignment_of(items_view(items@)[i]),
            );
            let mut i: usize = 0;
            while i < items.len()
                invariant
                    i <= items.len(),
                    out.len() == i,
                    all == Seq::new(
                        items_view(items@).len(),
                        |i: int| assignment_of(items_view(items@)[i]),
                    ),
                    forall|k: int| 0 <= k < i ==> all[k] == Some(out@[k]@),
                decreases items.len() - i,
            {
                match Assignment::from_node(&items[i]) {
                    Some(assignment) => {
                        out.push(assignment);
                    },
                    None => {
                        proof {
                            assert(all[i as int] is None);
                        }
                        return None;
                    },
                }
                i += 1;
            }
            proof {
                assert(all_some(all)->0 =~= out.deep_view());
            }
            Some(out)
        },
        Some(None) => {
            proof {
                let empty = Seq::<Tree>::empty();
                assert(all_some(Seq::new(empty.len(), |i: int| assignment_of(empty[i])))->0
                    =~= out.deep_view());
            }
            Some(out)
        },
        None => None,
    }
}

/// What reading a configuration out of documents amounts to: the
/// configuration that the main document is, once the defaults are merged
/// into it; or a serialization error where the outcome is none.
pub open spec fn config_from(main: Tree, defaults: Option<Tree>) -> Option<ConfigModel> {
    match defaults {
        Some(d) => config_of(merge(main, d)),
        None => config_of(main),
    }
}

/// The message for a document that is no configuration.
pub open spec fn not_a_config() -> ErrorModel {
    ErrorModel::Serialization("document is no configuration"@)
}

/// What reading a configuration out of texts amounts to: the error of
/// reading either text, the main one first; else what the documents
/// amount to.
pub open spec fn config_from_texts(
    main: Result<Option<Tree>, Seq<char>>,
    defaults: Option<Result<Option<Tree>, Seq<char>>>,
) -> Result<ConfigModel, ErrorModel> {
    match document(main) {
        Err(e) => Err(e),
        Ok(tree) => match defaults {
            None => match config_of(tree) {
                Some(c) => Ok(c),
                None => Err(not_a_config()),
            },
            Some(read) => match document(read) {
                Err(e) => Err(e),
                Ok(d) => match config_of(merge(tree, d)) {
                    Some(c) => Ok(c),
                    None => Err(not_a_config()),
                },
            },
        },
    }
}

impl Config {
    /// Reads a configuration out of a document.
    pub fn from_node(node: &Node) -> (r: Option<Config>)
        ensures
            r.deep_view() == config_of(node@),
    {
        match node {
            Node::Mapping(entries) => {
                proof {
                    lemma_view_mapping(*entries);
                }
                let ghost e = entries_view(entries@);
                let mut extra: Vec<(String, Node)> = Vec::new();
                let mut i: usize = 0;
                proof {
                    assert(entries_view(extra@) =~= config_extra(e, 0));
                }
                while i < entries.len()
                    invariant
                        i <= entries.len(),
                        e == entries_view(entries@),
                        entries_view(extra@) == config_extra(e, i as int),
                    decreases entries.len() - i,
                {
                    if !config_field(entries[i].0.as_str()) {
                        let ghost before = entries_view(extra@);
                        let entry = (entries[i].0.clone(), entries[i].1.duplicate());
                        extra.push(entry);
                        proof {
                            assert(entries_view(extra@) =~= before.push(e[i as int]));
                        }
                    }
                    i += 1;
                }
                match (
                    read_text(entries, "org"),
                    read_repos(entries, "repos"),
                    read_teams(entries, "teams"),
                    read_users(entries, "users"),
                    read_assignments(entries, "assignments"),
                    read_optional_webhook(entries, "default_webhook"),
                    read_rules(entries, "default_branch_protections"),
                ) {
                    (
                        Some(org),
                        Some(repos),
                        Some(teams),
                        Some(users),
                        Some(assignments),
                        Some(default_webhook),
                        Some(default_branch_protections),
                    ) => Some(
                        Config {
                            org,
                            repos,
                            teams,
                            users,
                            assignments,
                            default_webhook,
                            default_branch_protections,
                            extra: RepoSettings { entries: extra },
                        },
                    ),
                    _ => None,
                }
            },
            _ => None,
        }
    }

    /// Reads a configuration out of its document, with the defaults merged
    /// in where there are any.
    pub fn from_documents(main: &Node, defaults: &Option<Node>) -> (r: Result<Config, AppError>)
        ensures
            outcome(r) == match config_from(main@, defaults.deep_view()) {
                Some(c) => Ok::<ConfigModel, ErrorModel>(c),
                None => Err::<ConfigModel, ErrorModel>(not_a_config()),
            },
    {
        let decoded: Option<Config> = match defaults {
            Some(d) => {
                let merged: Node = merge_values(main, d);
                Config::from_node(&merged)
            },
            None => Config::from_node(main),
        };
        match decoded {
            Some(config) => Ok(config),
            None => Err(AppError::Serialization("document is no configuration".to_string())),
        }
    }

    /// Reads a configuration out of the text of its file, with the text of
    /// a file of defaults merged in where there is one.
    pub fn from_file_with_defaults(main_text: &str, defaults_text: Option<&str>) -> (r: Result<
        Config,
        AppError,
    >)
        ensures
            outcome(r) == config_from_texts(
                yaml_document(main_text@),
                match defaults_text {
                    Some(text) => Some(yaml_document(text@)),
                    None => None,
                },
            ),
    {
        let main: Node = match settle_read(read_yaml(main_text)) {
            Ok(node) => node,
            Err(e) => {
                return Err(e);
            },
        };
        let defaults: Option<Node> = match defaults_text {
            Some(text) => match settle_read(read_yaml(text)) {
                Ok(node) => Some(node),
                Err(e) => {
                    return Err(e);
                },
            },
            None => None,
        };
        Config::from_documents(&main, &defaults)
    }
}

} // verus!
