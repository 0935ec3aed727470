//! The configuration model: an organization with its repositories, teams,
//! users and team assignments, and the defaults that repositories inherit.

use crate::node::{entries_view, find_entry, key_position, Node, Tree};
use crate::order::{Keyed, Ordered};
use crate::text::{
    lemma_text_le_antisymmetric, lemma_text_le_total, lemma_text_le_transitive, same_text,
    text_before_eq, text_le,
};
use vstd::prelude::*;

verus! {

broadcast use vstd::std_specs::vec::group_vec_axioms;

/// The texts of a list of strings.
pub open spec fn texts(v: Seq<String>) -> Seq<Seq<char>> {
    Seq::new(v.len(), |i: int| v[i]@)
}

/// Copies a list of strings.
pub fn copy_texts(v: &Vec<String>) -> (r: Vec<String>)
    ensures
        texts(r@) == texts(v@),
{
    let mut out: Vec<String> = Vec::new();
    let mut i: usize = 0;
    while i < v.len()
        invariant
            i <= v.len(),
            out.len() == i,
            forall|k: int| 0 <= k < i ==> out@[k]@ == v@[k]@,
        decreases v.len() - i,
    {
        out.push(v[i].clone());
        i += 1;
    }
    proof {
        assert(texts(out@) =~= texts(v@));
    }
    out
}

/// A webhook of a repository: where it posts, in which content type, and on
/// which events.
#[derive(Debug)]
pub struct WebhookConfig {
    pub url: String,
    pub content_type: String,
    pub events: Vec<String>,
}

/// The model of a [`WebhookConfig`].
pub struct WebhookModel {
    pub url: Seq<char>,
    pub content_type: Seq<char>,
    pub events: Seq<Seq<char>>,
}

impl View for WebhookConfig {
    type V = WebhookModel;

    open spec fn view(&self) -> WebhookModel {
        WebhookModel {
            url: self.url@,
            content_type: self.content_type@,
            events: texts(self.events@),
        }
    }
}

impl DeepView for WebhookConfig {
    type V = WebhookModel;

    open spec fn deep_view(&self) -> WebhookModel {
        self@
    }
}

impl Clone for WebhookConfig {
    fn clone(&self) -> (r: Self)
        ensures
            r@ == self@,
    {
        WebhookConfig {
            url: self.url.clone(),
            content_type: self.content_type.clone(),
            events: copy_texts(&self.events),
        }
    }
}

/// A branch protection rule: the branches it covers and what it enforces.
#[derive(Debug)]
pub struct BranchProtectionRule {
    pub pattern: String,
    pub enforce_admins: bool,
    pub allow_deletions: bool,
    pub allow_force_pushes: bool,
}

/// The model of a [`BranchProtectionRule`].
pub struct RuleModel {
    pub pattern: Seq<char>,
    pub enforce_admins: bool,
    pub allow_deletions: bool,
    pub allow_force_pushes: bool,
}

impl View for BranchProtectionRule {
    type V = RuleModel;

    open spec fn view(&self) -> RuleModel {
        RuleModel {
            pattern: self.pattern@,
            enforce_admins: self.enforce_admins,
            allow_deletions: self.allow_deletions,
            allow_force_pushes: self.allow_force_pushes,
        }
    }
}

impl DeepView for BranchProtectionRule {
    type V = RuleModel;

    open spec fn deep_view(&self) -> RuleModel {
        self@
    }
}

impl Clone for BranchProtectionRule {
    fn clone(&self) -> (r: Self)
        ensures
            r@ == self@,
    {
        BranchProtectionRule {
            pattern: self.pattern.clone(),
            enforce_admins: self.enforce_admins,
            allow_deletions: self.allow_deletions,
            allow_force_pushes: self.allow_force_pushes,
        }
    }
}

impl Default for BranchProtectionRule {
    /// The rule for `main`: admins are held to it, and the branch can be
    /// neither deleted nor force-pushed.
    fn default() -> (r: Self)
        ensures
            r@ == (RuleModel {
                pattern: "main"@,
                enforce_admins: true,
                allow_deletions: false,
                allow_force_pushes: false,
            }),
    {
        BranchProtectionRule {
            pattern: "main".to_string(),
            enforce_admins: true,
            allow_deletions: false,
            allow_force_pushes: false,
        }
    }
}

/// What a branch protection enforces, without the branches it covers.
#[derive(Clone, Copy, Debug, PartialEq, Eq, Structural)]
pub struct BranchProtection {
    pub enforce_admins: bool,
    pub allow_deletions: bool,
    pub allow_force_pushes: bool,
}

impl Default for BranchProtection {
    /// Admins are held to the protection, and the branch can be neither
    /// deleted nor force-pushed.
    fn default() -> (r: Self)
        ensures
            r == (BranchProtection {
                enforce_admins: true,
                allow_deletions: false,
                allow_force_pushes: false,
            }),
    {
        BranchProtection { enforce_admins: true, allow_deletions: false, allow_force_pushes: false }
    }
}

/// An open bag of named values: the settings of a repository, or the keys of
/// a document that the model does not know. Entries keep the order in which
/// they came; a lookup finds the first entry under a key.
#[derive(Debug)]
pub struct RepoSettings {
    pub entries: Vec<(String, Node)>,
}

impl View for RepoSettings {
    type V = Seq<(Seq<char>, Tree)>;

    open spec fn view(&self) -> Seq<(Seq<char>, Tree)> {
        entries_view(self.entries@)
    }
}

impl DeepView for RepoSettings {
    type V = Seq<(Seq<char>, Tree)>;

    open spec fn deep_view(&self) -> Seq<(Seq<char>, Tree)> {
        self@
    }
}

impl RepoSettings {
    /// The empty bag.
    pub fn new() -> (r: Self)
        ensures
            r@ == Seq::<(Seq<char>, Tree)>::empty(),
    {
        let r = RepoSettings { entries: Vec::new() };
        proof {
            assert(r@ =~= Seq::<(Seq<char>, Tree)>::empty());
        }
        r
    }

    /// The number of entries.
    pub fn len(&self) -> (n: usize)
        ensures
            n == self@.len(),
    {
        self.entries.len()
    }

    /// Whether the bag holds no entry.
    pub fn is_empty(&self) -> (r: bool)
        ensures
            r == (self@.len() == 0),
    {
        self.entries.len() == 0
    }

    /// The value under `key`, if the bag holds one.
    pub fn get(&self, key: &str) -> (r: Option<&Node>)
        ensures
            match r {
                Some(v) => crate::node::dict_get(self@, key@) == Some(v@),
                None => crate::node::dict_get(self@, key@) is None,
            },
    {
        match find_entry(&self.entries, key) {
            Some(i) => Some(&self.entries[i].1),
            None => None,
        }
    }

    /// Whether the bag holds an entry under `key`.
    pub fn contains_key(&self, key: &str) -> (r: bool)
        ensures
            r == key_position(self@, key@) is Some,
    {
        find_entry(&self.entries, key).is_some()
    }

    /// Puts `value` under `key`: in place of the first entry under that key,
    /// or behind all entries if there is none.
    pub fn insert(&mut self, key: String, value: Node)
        ensures
            match key_position(old(self)@, key@) {
                Some(i) => final(self)@ == old(self)@.update(i, (key@, value@)),
                None => final(self)@ == old(self)@.push((key@, value@)),
            },
    {
        match find_entry(&self.entries, key.as_str()) {
            Some(i) => {
                self.entries.set(i, (key, value));
                proof {
                    assert(self@ =~= old(self)@.update(i as int, (key@, value@)));
                }
            },
            None => {
                self.entries.push((key, value));
                proof {
                    assert(self@ =~= old(self)@.push((key@, value@)));
                }
            },
        }
    }
}

impl Clone for RepoSettings {
    fn clone(&self) -> (r: Self)
        ensures
            r@ == self@,
    {
        let mut out: Vec<(String, Node)> = Vec::new();
        let mut i: usize = 0;
        while i < self.entries.len()
            invariant
                i <= self.entries.len(),
                out.len() == i,
                forall|k: int|
                    0 <= k < i ==> out@[k].0@ == self.entries@[k].0@ && out@[k].1@
                        == self.entries@[k].1@,
            decreases self.entries.len() - i,
        {
            out.push((self.entries[i].0.clone(), self.entries[i].1.duplicate()));
            i += 1;
        }
        let r = RepoSettings { entries: out };
        proof {
            assert(r@ =~= self@);
        }
        r
    }
}

/// Copies a list of branch protection rules.
pub fn copy_rules(v: &Vec<BranchProtectionRule>) -> (r: Vec<BranchProtectionRule>)
    ensures
        r.deep_view() == v.deep_view(),
{
    let mut out: Vec<BranchProtectionRule> = Vec::new();
    let mut i: usize = 0;
    while i < v.len()
        invariant
            i <= v.len(),
            out.len() == i,
            forall|k: int| 0 <= k < i ==> out@[k]@ == v@[k]@,
        decreases v.len() - i,
    {
        out.push(v[i].clone());
        i += 1;
    }
    proof {
        assert(out.deep_view() =~= v.deep_view());
    }
    out
}

/// Copies an optional text.
pub fn copy_optional_text(v: &Option<String>) -> (r: Option<String>)
    ensures
        r.deep_view() == v.deep_view(),
{
    match v {
        Some(s) => Some(s.clone()),
        None => None,
    }
}

/// Copies an optional webhook.
pub fn copy_optional_webhook(v: &Option<WebhookConfig>) -> (r: Option<WebhookConfig>)
    ensures
        r.deep_view() == v.deep_view(),
{
    match v {
        Some(w) => Some(w.clone()),
        None => None,
    }
}

/// A repository: its name, its settings, and what it overrides of the
/// organization's defaults.
#[derive(Debug)]
pub struct Repo {
    pub name: String,
    pub settings: RepoSettings,
    pub visibility: Option<String>,
    pub webhook: Option<WebhookConfig>,
    pub branch_protections: Vec<BranchProtectionRule>,
    pub extra: RepoSettings,
}

/// The model of a [`Repo`].
pub struct RepoModel {
    pub name: Seq<char>,
    pub settings: Seq<(Seq<char>, Tree)>,
    pub visibility: Option<Seq<char>>,
    pub webhook: Option<WebhookModel>,
    pub branch_protections: Seq<RuleModel>,
    pub extra: Seq<(Seq<char>, Tree)>,
}

impl View for Repo {
    type V = RepoModel;

    open spec fn view(&self) -> RepoModel {
        RepoModel {
            name: self.name@,
            settings: self.settings@,
            visibility: self.visibility.deep_view(),
            webhook: self.webhook.deep_view(),
            branch_protections: self.branch_protections.deep_view(),
            extra: self.extra@,
        }
    }
}

impl DeepView for Repo {
    type V = RepoModel;

    open spec fn deep_view(&self) -> RepoModel {
        self@
    }
}

impl Clone for Repo {
    fn clone(&self) -> (r: Self)
        ensures
            r@ == self@,
    {
        Repo {
            name: self.name.clone(),
            settings: self.settings.clone(),
            visibility: copy_optional_text(&self.visibility),
            webhook: copy_optional_webhook(&self.webhook),
            branch_protections: copy_rules(&self.branch_protections),
            extra: self.extra.clone(),
        }
    }
}

impl Ordered for RepoModel {
    open spec fn before_eq(&self, other: &Self) -> bool {
        text_le(self.name, other.name)
    }

    proof fn lemma_total(a: &Self, b: &Self) {
        lemma_text_le_total(a.name, b.name);
    }

    proof fn lemma_transitive(a: &Self, b: &Self, c: &Self) {
        lemma_text_le_transitive(a.name, b.name, c.name);
    }
}

impl Keyed for Repo {
    fn precedes(&self, other: &Self) -> (r: bool) {
        text_before_eq(self.name.as_str(), other.name.as_str())
    }
}

/// A team of the organization and the logins of its members.
#[derive(Debug)]
pub struct Team {
    pub name: String,
    pub members: Vec<String>,
}

/// The model of a [`Team`].
pub struct TeamModel {
    pub name: Seq<char>,
    pub members: Seq<Seq<char>>,
}

impl View for Team {
    type V = TeamModel;

    open spec fn view(&self) -> TeamModel {
        TeamModel { name: self.name@, members: texts(self.members@) }
    }
}

impl DeepView for Team {
    type V = TeamModel;

    open spec fn deep_view(&self) -> TeamModel {
        self@
    }
}

impl Clone for Team {
    fn clone(&self) -> (r: Self)
        ensures
            r@ == self@,
    {
        Team { name: self.name.clone(), members: copy_texts(&self.members) }
    }
}

impl Ordered for TeamModel {
    open spec fn before_eq(&self, other: &Self) -> bool {
        text_le(self.name, other.name)
    }

    proof fn lemma_total(a: &Self, b: &Self) {
        lemma_text_le_total(a.name, b.name);
    }

    proof fn lemma_transitive(a: &Self, b: &Self, c: &Self) {
        lemma_text_le_transitive(a.name, b.name, c.name);
    }
}

impl Keyed for Team {
    fn precedes(&self, other: &Self) -> (r: bool) {
        text_before_eq(self.name.as_str(), other.name.as_str())
    }
}

/// A member of the organization and the member's role in it.
#[derive(Debug)]
pub struct User {
    pub login: String,
    pub role: String,
}

/// The model of a [`User`].
pub struct UserModel {
    pub login: Seq<char>,
    pub role: Seq<char>,
}

impl View for User {
    type V = UserModel;

    open spec fn view(&self) -> UserModel {
        UserModel { login: self.login@, role: self.role@ }
    }
}

impl DeepView for User {
    type V = UserModel;

    open spec fn deep_view(&self) -> UserModel {
        self@
    }
}

impl Clone for User {
    fn clone(&self) -> (r: Self)
        ensures
            r@ == self@,
    {
        User { login: self.login.clone(), role: self.role.clone() }
    }
}

impl Ordered for UserModel {
    open spec fn before_eq(&self, other: &Self) -> bool {
        text_le(self.login, other.login)
    }

    proof fn lemma_total(a: &Self, b: &Self) {
        lemma_text_le_total(a.login, b.login);
    }

    proof fn lemma_transitive(a: &Self, b: &Self, c: &Self) {
        lemma_text_le_transitive(a.login, b.login, c.login);
    }
}

impl Keyed for User {
    fn precedes(&self, other: &Self) -> (r: bool) {
        text_before_eq(self.login.as_str(), other.login.as_str())
    }
}

/// The permission that a team has on a repository.
#[derive(Debug)]
pub struct Assignment {
    pub repo: String,
    pub team: String,
    pub permission: String,
}

/// The model of an [`Assignment`].
pub struct AssignmentModel {
    pub repo: Seq<char>,
    pub team: Seq<char>,
    pub permission: Seq<char>,
}

impl View for Assignment {
    type V = AssignmentModel;

    open spec fn view(&self) -> AssignmentModel {
        AssignmentModel { repo: self.repo@, team: self.team@, permission: self.permission@ }
    }
}

impl DeepView for Assignment {
    type V = AssignmentModel;

    open spec fn deep_view(&self) -> AssignmentModel {
        self@
    }
}

impl Clone for Assignment {
    fn clone(&self) -> (r: Self)
        ensures
            r@ == self@,
    {
        Assignment {
            repo: self.repo.clone(),
            team: self.team.clone(),
            permission: self.permission.clone(),
        }
    }
}

/// The order of assignments: by team, and by repository within a team.
pub open spec fn pair_le(team: Seq<char>, repo: Seq<char>, team2: Seq<char>, repo2: Seq<char>) -> bool {
    if team == team2 {
        text_le(repo, repo2)
    } else {
        text_le(team, team2)
    }
}

impl Ordered for AssignmentModel {
    open spec fn before_eq(&self, other: &Self) -> bool {
        pair_le(self.team, self.repo, other.team, other.repo)
    }

    proof fn lemma_total(a: &Self, b: &Self) {
        lemma_text_le_total(a.team, b.team);
        lemma_text_le_total(a.repo, b.repo);
    }

    proof fn lemma_transitive(a: &Self, b: &Self, c: &Self) {
        if a.team == b.team && b.team == c.team {
            lemma_text_le_transitive(a.repo, b.repo, c.repo);
        } else if a.team == b.team || b.team == c.team {
        } else {
            lemma_text_le_transitive(a.team, b.team, c.team);
            if a.team == c.team {
                lemma_text_le_antisymmetric(a.team, b.team);
            }
        }
    }
}

impl Keyed for Assignment {
    fn precedes(&self, other: &Self) -> (r: bool) {
        if same_text(self.team.as_str(), other.team.as_str()) {
            text_before_eq(self.repo.as_str(), other.repo.as_str())
        } else {
            text_before_eq(self.team.as_str(), other.team.as_str())
        }
    }
}

/// The configuration of an organization.
#[derive(Debug)]
pub struct Config {
    pub org: String,
    pub repos: Vec<Repo>,
    pub teams: Vec<Team>,
    pub users: Vec<User>,
    pub assignments: Vec<Assignment>,
    pub default_webhook: Option<WebhookConfig>,
    pub default_branch_protections: Vec<BranchProtectionRule>,
    pub extra: RepoSettings,
}

/// The model of a [`Config`].
pub struct ConfigModel {
    pub org: Seq<char>,
    pub repos: Seq<RepoModel>,
    pub teams: Seq<TeamModel>,
    pub users: Seq<UserModel>,
    pub assignments: Seq<AssignmentModel>,
    pub default_webhook: Option<WebhookModel>,
    pub default_branch_protections: Seq<RuleModel>,
    pub extra: Seq<(Seq<char>, Tree)>,
}

impl View for Config {
    type V = ConfigModel;

    open spec fn view(&self) -> ConfigModel {
        ConfigModel {
            org: self.org@,
            repos: self.repos.deep_view(),
            teams: self.teams.deep_view(),
            users: self.users.deep_view(),
            assignments: self.assignments.deep_view(),
            default_webhook: self.default_webhook.deep_view(),
            default_branch_protections: self.default_branch_protections.deep_view(),
            extra: self.extra@,
        }
    }
}

impl DeepView for Config {
    type V = ConfigModel;

    open spec fn deep_view(&self) -> ConfigModel {
        self@
    }
}

} // verus!
