//! The snapshot builder: the state of an organization on GitHub in the
//! shape of a configuration, in full or cut down to what a local
//! configuration speaks of.

use crate::config::{
    Assignment, AssignmentModel, Config, ConfigModel, copy_texts, Repo, RepoModel, RepoSettings,
    RuleModel, Team, TeamModel, texts, User, UserModel, WebhookConfig, WebhookModel,
};
use crate::github::GitHubClient;
use crate::members::{permission_level, permission_of, TeamRepoModel, TeamRepoResponse};
use crate::node::{dict_get, Node, Tree};
use crate::order::{sort_keyed, stable_sort};
use crate::text::{lemma_position_of_is, lemma_position_of_none, position_of, same_text};
use crate::webhooks::{find_hook, hook_for, HookModel, WebhookResponse};
use vstd::prelude::*;

verus! {

broadcast use vstd::std_specs::vec::group_vec_axioms;

/// What was seen of a repository of the organization: its entry in the
/// organization's list, and, where they were read, its settings and its
/// webhooks.
#[derive(Debug)]
pub struct RepoObservation {
    pub name: Option<String>,
    pub private: Option<bool>,
    pub settings: Option<RepoSettings>,
    pub hooks: Option<Vec<WebhookResponse>>,
}

/// The model of a [`RepoObservation`].
pub struct RepoSeen {
    pub name: Option<Seq<char>>,
    pub private: Option<bool>,
    pub settings: Option<Seq<(Seq<char>, Tree)>>,
    pub hooks: Option<Seq<HookModel>>,
}

impl View for RepoObservation {
    type V = RepoSeen;

    open spec fn view(&self) -> RepoSeen {
        RepoSeen {
            name: self.name.deep_view(),
            private: self.private,
            settings: self.settings.deep_view(),
            hooks: self.hooks.deep_view(),
        }
    }
}

impl DeepView for RepoObservation {
    type V = RepoSeen;

    open spec fn deep_view(&self) -> RepoSeen {
        self@
    }
}

/// The names of a configuration's repositories.
pub open spec fn repo_names(repos: Seq<RepoModel>) -> Seq<Seq<char>> {
    Seq::new(repos.len(), |i: int| repos[i].name)
}

/// The visibility that the `private` mark of a repository amounts to; a
/// repository without the mark counts as public.
pub open spec fn visibility_of(private: Option<bool>) -> Seq<char> {
    if private == Some(true) {
        "private"@
    } else {
        "public"@
    }
}

/// The observed settings cut down to the keys of the local ones: each local
/// key with the observed value under it, or with null where GitHub reported
/// none.
pub open spec fn filtered_settings(
    local: Seq<(Seq<char>, Tree)>,
    remote: Seq<(Seq<char>, Tree)>,
) -> Seq<(Seq<char>, Tree)> {
    Seq::new(
        local.len(),
        |i: int|
            (
                local[i].0,
                match dict_get(remote, local[i].0) {
                    Some(v) => v,
                    None => Tree::Null,
                },
            ),
    )
}

/// The address that the webhook of a repository is to post to: that of its
/// own webhook, or else that of the default one.
pub open spec fn hook_target(repo: RepoModel, default_webhook: Option<WebhookModel>) -> Option<
    Seq<char>,
> {
    match repo.webhook {
        Some(w) => Some(w.url),
        None => match default_webhook {
            Some(d) => Some(d.url),
            None => None,
        },
    }
}

/// The webhook that was observed to post to the target, its events sorted.
pub open spec fn observed_webhook(hooks: Option<Seq<HookModel>>, target: Option<Seq<char>>) -> Option<
    WebhookModel,
> {
    match (target, hooks) {
        (Some(url), Some(seen)) => match hook_for(seen, url) {
            Some(hook) => Some(
                WebhookModel {
                    url: hook.target,
                    content_type: hook.content_type,
                    events: stable_sort(hook.events),
                },
            ),
            None => None,
        },
        _ => None,
    }
}

/// A repository as it was observed, cut down to what the local repository
/// speaks of: the settings under the local keys, the visibility if the
/// local repository names one, and the webhook that posts where the local
/// one is to post.
pub open spec fn observed_repo(
    local: RepoModel,
    default_webhook: Option<WebhookModel>,
    seen: RepoSeen,
) -> RepoModel {
    RepoModel {
        name: local.name,
        settings: filtered_settings(
            local.settings,
            match seen.settings {
                Some(s) => s,
                None => Seq::empty(),
            },
        ),
        visibility: if local.visibility is Some {
            Some(visibility_of(seen.private))
        } else {
            None
        },
        webhook: observed_webhook(seen.hooks, hook_target(local, default_webhook)),
        branch_protections: Seq::empty(),
        extra: Seq::empty(),
    }
}

/// The observation bears the name and holds settings.
pub open spec fn is_seen_as(seen: RepoSeen, name: Seq<char>) -> bool {
    seen.name == Some(name) && seen.settings is Some
}

/// The first observation that bears the name and holds settings, among the
/// first `upto`.
pub open spec fn seen_position(observed: Seq<RepoSeen>, name: Seq<char>, upto: int) -> Option<int>
    decreases upto,
{
    if upto <= 0 {
        None
    } else {
        match seen_position(observed, name, upto - 1) {
            Some(i) => Some(i),
            None => if is_seen_as(observed[upto - 1], name) {
                Some(upto - 1)
            } else {
                None
            },
        }
    }
}

/// The observed repositories of the first `upto` local ones: each local
/// repository that was observed, in the local order.
pub open spec fn observed_repos(
    local: Seq<RepoModel>,
    default_webhook: Option<WebhookModel>,
    observed: Seq<RepoSeen>,
    upto: int,
) -> Seq<RepoModel>
    decreases upto,
{
    if upto <= 0 {
        Seq::empty()
    } else {
        let rest = observed_repos(local, default_webhook, observed, upto - 1);
        match seen_position(observed, local[upto - 1].name, observed.len() as int) {
            Some(i) => rest.push(observed_repo(local[upto - 1], default_webhook, observed[i])),
            None => rest,
        }
    }
}

/// Cuts the observed settings down to the keys of the local ones.
pub fn filter_settings(local: &RepoSettings, remote: &RepoSettings) -> (r: RepoSettings)
    ensures
        r@ == filtered_settings(local@, remote@),
{
    let mut out: Vec<(String, Node)> = Vec::new();
    let mut i: usize = 0;
    while i < local.entries.len()
        invariant
            i <= local.entries.len(),
            out.len() == i,
            forall|k: int|
                0 <= k < i ==> (out@[k].0@, out@[k].1@) == filtered_settings(local@, remote@)[k],
        decreases local.entries.len() - i,
    {
        let value: Node = match remote.get(local.entries[i].0.as_str()) {
            Some(v) => v.duplicate(),
            None => Node::Null,
        };
        out.push((local.entries[i].0.clone(), value));
        i += 1;
    }
    let r = RepoSettings { entries: out };
    proof {
        assert(r@ =~= filtered_settings(local@, remote@));
    }
    r
}

/// The webhook among the observed ones that posts to the target address,
/// with its events sorted.
pub fn select_webhook(hooks: &Vec<WebhookResponse>, target: &str) -> (r: Option<WebhookConfig>)
    ensures
        r.deep_view() == observed_webhook(Some(hooks.deep_view()), Some(target@)),
{
    match find_hook(hooks, target) {
        Some(hook) => {
            let mut events: Vec<String> = copy_texts(&hook.events);
            proof {
                assert(events.deep_view() =~= texts(hook.events@));
            }
            sort_keyed(&mut events);
            proof {
                assert(texts(events@) =~= events.deep_view());
            }
            Some(
                WebhookConfig {
                    url: hook.config.url.clone(),
                    content_type: hook.config.content_type.clone(),
                    events,
                },
            )
        },
        None => None,
    }
}

/// The address that the webhook of a repository is to post to.
pub fn webhook_target<'a>(repo: &'a Repo, default_webhook: &'a Option<WebhookConfig>) -> (r: Option<
    &'a str,
>)
    ensures
        match r {
            Some(url) => hook_target(repo@, default_webhook.deep_view()) == Some(url@),
            None => hook_target(repo@, default_webhook.deep_view()) is None,
        },
{
    match &repo.webhook {
        Some(w) => Some(w.url.as_str()),
        None => match default_webhook {
            Some(d) => Some(d.url.as_str()),
            None => None,
        },
    }
}

/// Builds the observed counterpart of a local repository.
pub fn snapshot_repo(
    local: &Repo,
    default_webhook: &Option<WebhookConfig>,
    seen: &RepoObservation,
) -> (r: Repo)
    ensures
        r@ == observed_repo(local@, default_webhook.deep_view(), seen@),
{
    let settings: RepoSettings = match &seen.settings {
        Some(s) => filter_settings(&local.settings, s),
        None => {
            let none = RepoSettings::new();
            filter_settings(&local.settings, &none)
        },
    };
    let visibility: Option<String> = if local.visibility.is_some() {
        match seen.private {
            Some(true) => Some("private".to_string()),
            _ => Some("public".to_string()),
        }
    } else {
        None
    };
    let webhook: Option<WebhookConfig> = match (webhook_target(local, default_webhook), &seen.hooks) {
        (Some(url), Some(hooks)) => select_webhook(hooks, url),
        _ => None,
    };
    let r = Repo {
        name: local.name.clone(),
        settings,
        visibility,
        webhook,
        branch_protections: Vec::new(),
        extra: RepoSettings::new(),
    };
    proof {
        assert(r.branch_protections.deep_view() =~= Seq::<RuleModel>::empty());
    }
    r
}

/// Finds the first observation that bears the name and holds settings.
pub fn find_seen(observed: &Vec<RepoObservation>, name: &str) -> (r: Option<usize>)
    ensures
        match r {
            Some(i) => i < observed.len() && seen_position(
                observed.deep_view(),
                name@,
                observed.len() as int,
            ) == Some(i as int),
            None => seen_position(observed.deep_view(), name@, observed.len() as int) is None,
        },
{
    let ghost all = observed.deep_view();
    let mut i: usize = 0;
    while i < observed.len()
        invariant
            i <= observed.len(),
            all == observed.deep_view(),
            seen_position(all, name@, i as int) is None,
        decreases observed.len() - i,
    {
        let named: bool = match &observed[i].name {
            Some(n) => same_text(n.as_str(), name),
            None => false,
        };
        if named && observed[i].settings.is_some() {
            proof {
                assert(is_seen_as(all[i as int], name@));
                lemma_seen_position_stays(all, name@, i + 1, observed.len() as int);
            }
            return Some(i);
        }
        i += 1;
    }
    None
}

/// Once an observation is found, later ones do not change the answer.
pub proof fn lemma_seen_position_stays(observed: Seq<RepoSeen>, name: Seq<char>, at: int, upto: int)
    requires
        at <= upto,
        seen_position(observed, name, at) is Some,
    ensures
        seen_position(observed, name, upto) == seen_position(observed, name, at),
    decreases upto - at,
{
    if at < upto {
        lemma_seen_position_stays(observed, name, at, upto - 1);
    }
}

/// What was seen of a team of the organization: its entry in the
/// organization's list, and, where they were read, its members and its
/// repositories.
#[derive(Debug)]
pub struct TeamObservation {
    pub slug: Option<String>,
    pub members: Option<Vec<String>>,
    pub repos: Option<Vec<TeamRepoResponse>>,
}

/// The model of a [`TeamObservation`].
pub struct TeamSeen {
    pub slug: Option<Seq<char>>,
    pub members: Option<Seq<Seq<char>>>,
    pub repos: Option<Seq<TeamRepoModel>>,
}

impl View for TeamObservation {
    type V = TeamSeen;

    open spec fn view(&self) -> TeamSeen {
        TeamSeen {
            slug: self.slug.deep_view(),
            members: self.members.deep_view(),
            repos: self.repos.deep_view(),
        }
    }
}

impl DeepView for TeamObservation {
    type V = TeamSeen;

    open spec fn deep_view(&self) -> TeamSeen {
        self@
    }
}

/// What was seen of a member of the organization: the entry in the
/// organization's list, and the role, where it was read.
#[derive(Debug)]
pub struct MemberObservation {
    pub login: Option<String>,
    pub role: Option<String>,
}

/// The model of a [`MemberObservation`].
pub struct MemberSeen {
    pub login: Option<Seq<char>>,
    pub role: Option<Seq<char>>,
}

impl View for MemberObservation {
    type V = MemberSeen;

    open spec fn view(&self) -> MemberSeen {
        MemberSeen { login: self.login.deep_view(), role: self.role.deep_view() }
    }
}

impl DeepView for MemberObservation {
    type V = MemberSeen;

    open spec fn deep_view(&self) -> MemberSeen {
        self@
    }
}

/// What was seen of an organization. A list that could not be read is
/// absent.
#[derive(Debug)]
pub struct OrgObservation {
    pub repos: Vec<RepoObservation>,
    pub teams: Option<Vec<TeamObservation>>,
    pub members: Option<Vec<MemberObservation>>,
}

/// The model of an [`OrgObservation`]; an absent list is empty.
pub struct OrgSeen {
    pub repos: Seq<RepoSeen>,
    pub teams: Seq<TeamSeen>,
    pub members: Seq<MemberSeen>,
}

impl View for OrgObservation {
    type V = OrgSeen;

    open spec fn view(&self) -> OrgSeen {
        OrgSeen {
            repos: self.repos.deep_view(),
            teams: match self.teams {
                Some(teams) => teams.deep_view(),
                None => Seq::empty(),
            },
            members: match self.members {
                Some(members) => members.deep_view(),
                None => Seq::empty(),
            },
        }
    }
}

/// The names of a configuration's teams.
pub open spec fn team_names(teams: Seq<TeamModel>) -> Seq<Seq<char>> {
    Seq::new(teams.len(), |i: int| teams[i].name)
}

/// The logins of a configuration's users.
pub open spec fn user_logins(users: Seq<UserModel>) -> Seq<Seq<char>> {
    Seq::new(users.len(), |i: int| users[i].login)
}

/// The local configuration assigns the team to the repository.
pub open spec fn assigns(assignments: Seq<AssignmentModel>, team: Seq<char>, repo: Seq<char>) -> bool {
    exists|i: int|
        0 <= i < assignments.len() && (#[trigger] assignments[i]).team == team
            && assignments[i].repo == repo
}

/// The team was seen in full: under the name, and with its members.
pub open spec fn is_team_seen_as(seen: TeamSeen, name: Seq<char>) -> bool {
    seen.slug == Some(name) && seen.members is Some
}

/// The first observation of a team under the name and with its members,
/// among the first `upto`.
pub open spec fn team_seen_position(observed: Seq<TeamSeen>, name: Seq<char>, upto: int) -> Option<
    int,
>
    decreases upto,
{
    if upto <= 0 {
        None
    } else {
        match team_seen_position(observed, name, upto - 1) {
            Some(i) => Some(i),
            None => if is_team_seen_as(observed[upto - 1], name) {
                Some(upto - 1)
            } else {
                None
            },
        }
    }
}

/// The observed teams that the local configuration names, among the first
/// `upto` observations, each with its members sorted.
pub open spec fn observed_teams(local: Seq<TeamModel>, observed: Seq<TeamSeen>, upto: int) -> Seq<
    TeamModel,
>
    decreases upto,
{
    if upto <= 0 {
        Seq::empty()
    } else {
        let rest = observed_teams(local, observed, upto - 1);
        let seen = observed[upto - 1];
        if seen.slug is Some && seen.members is Some && position_of(
            team_names(local),
            seen.slug->0,
        ) is Some {
            rest.push(TeamModel { name: seen.slug->0, members: stable_sort(seen.members->0) })
        } else {
            rest
        }
    }
}

/// The observed members that the local configuration names and whose role
/// was read, among the first `upto` observations.
pub open spec fn observed_users(local: Seq<UserModel>, observed: Seq<MemberSeen>, upto: int) -> Seq<
    UserModel,
>
    decreases upto,
{
    if upto <= 0 {
        Seq::empty()
    } else {
        let rest = observed_users(local, observed, upto - 1);
        let seen = observed[upto - 1];
        if seen.login is Some && seen.role is Some && position_of(
            user_logins(local),
            seen.login->0,
        ) is Some {
            rest.push(UserModel { login: seen.login->0, role: seen.role->0 })
        } else {
            rest
        }
    }
}

/// The permissions of a team that the local configuration assigns, among
/// the first `upto` of the team's repositories; a repository on which the
/// team may do nothing is left out.
pub open spec fn observed_grants(
    local: Seq<AssignmentModel>,
    team: Seq<char>,
    repos: Seq<TeamRepoModel>,
    upto: int,
) -> Seq<AssignmentModel>
    decreases upto,
{
    if upto <= 0 {
        Seq::empty()
    } else {
        let rest = observed_grants(local, team, repos, upto - 1);
        let repo = repos[upto - 1];
        if assigns(local, team, repo.name) && (repo.permissions.admin || repo.permissions.push
            || repo.permissions.pull) {
            rest.push(
                AssignmentModel {
                    repo: repo.name,
                    team,
                    permission: permission_of(repo.permissions),
                },
            )
        } else {
            rest
        }
    }
}

/// The permissions that were observed of the local team at `at`: those of
/// the team's repositories, if the team was seen in full and its
/// repositories were read, and if no earlier local team bears the name.
pub open spec fn team_grants(
    local_teams: Seq<TeamModel>,
    local_assignments: Seq<AssignmentModel>,
    observed: Seq<TeamSeen>,
    at: int,
) -> Seq<AssignmentModel> {
    let name = local_teams[at].name;
    if position_of(team_names(local_teams), name) == Some(at) {
        match team_seen_position(observed, name, observed.len() as int) {
            Some(k) => match observed[k].repos {
                Some(repos) => observed_grants(local_assignments, name, repos, repos.len() as int),
                None => Seq::empty(),
            },
            None => Seq::empty(),
        }
    } else {
        Seq::empty()
    }
}

/// The permissions that were observed of the first `upto` local teams.
pub open spec fn observed_assignments(
    local_teams: Seq<TeamModel>,
    local_assignments: Seq<AssignmentModel>,
    observed: Seq<TeamSeen>,
    upto: int,
) -> Seq<AssignmentModel>
    decreases upto,
{
    if upto <= 0 {
        Seq::empty()
    } else {
        observed_assignments(local_teams, local_assignments, observed, upto - 1) + team_grants(
            local_teams,
            local_assignments,
            observed,
            upto - 1,
        )
    }
}

/// The state of the organization as the local configuration sees it: of
/// each kind of resource only what the local configuration names, and of
/// each repository only the settings whose keys it names.
pub open spec fn filtered_config(org: Seq<char>, local: ConfigModel, observed: OrgSeen) -> ConfigModel {
    ConfigModel {
        org,
        repos: observed_repos(
            local.repos,
            local.default_webhook,
            observed.repos,
            local.repos.len() as int,
        ),
        teams: observed_teams(local.teams, observed.teams, observed.teams.len() as int),
        users: observed_users(local.users, observed.members, observed.members.len() as int),
        assignments: observed_assignments(
            local.teams,
            local.assignments,
            observed.teams,
            local.teams.len() as int,
        ),
        default_webhook: None,
        default_branch_protections: Seq::empty(),
        extra: Seq::empty(),
    }
}

/// Finds the first local repository of that name.
pub fn find_repo(repos: &Vec<Repo>, name: &str) -> (r: Option<usize>)
    ensures
        match r {
            Some(i) => i < repos.len() && position_of(repo_names(repos.deep_view()), name@)
                == Some(i as int),
            None => position_of(repo_names(repos.deep_view()), name@) is None,
        },
{
    let ghost all = repo_names(repos.deep_view());
    let mut i: usize = 0;
    while i < repos.len()
        invariant
            i <= repos.len(),
            all == repo_names(repos.deep_view()),
            forall|j: int| 0 <= j < i ==> all[j] != name@,
        decreases repos.len() - i,
    {
        if same_text(repos[i].name.as_str(), name) {
            proof {
                lemma_position_of_is(all, name@, i as int);
            }
            return Some(i);
        }
        i += 1;
    }
    proof {
        lemma_position_of_none(all, name@);
    }
    None
}

/// Finds the first local team of that name.
pub fn find_team(teams: &Vec<Team>, name: &str) -> (r: Option<usize>)
    ensures
        match r {
            Some(i) => i < teams.len() && position_of(team_names(teams.deep_view()), name@)
                == Some(i as int),
            None => position_of(team_names(teams.deep_view()), name@) is None,
        },
{
    let ghost all = team_names(teams.deep_view());
    let mut i: usize = 0;
    while i < teams.len()
        invariant
            i <= teams.len(),
            all == team_names(teams.deep_view()),
            forall|j: int| 0 <= j < i ==> all[j] != name@,
        decreases teams.len() - i,
    {
        if same_text(teams[i].name.as_str(), name) {
            proof {
                lemma_position_of_is(all, name@, i as int);
            }
            return Some(i);
        }
        i += 1;
    }
    proof {
        lemma_position_of_none(all, name@);
    }
    None
}

/// Finds the first local user of that login.
pub fn find_user(users: &Vec<User>, login: &str) -> (r: Option<usize>)
    ensures
        match r {
            Some(i) => i < users.len() && position_of(user_logins(users.deep_view()), login@)
                == Some(i as int),
            None => position_of(user_logins(users.deep_view()), login@) is None,
        },
{
    let ghost all = user_logins(users.deep_view());
    let mut i: usize = 0;
    while i < users.len()
        invariant
            i <= users.len(),
            all == user_logins(users.deep_view()),
            forall|j: int| 0 <= j < i ==> all[j] != login@,
        decreases users.len() - i,
    {
        if same_text(users[i].login.as_str(), login) {
            proof {
                lemma_position_of_is(all, login@, i as int);
            }
            return Some(i);
        }
        i += 1;
    }
    proof {
        lemma_position_of_none(all, login@);
    }
    None
}

/// Tests whether the assignments give the team something on the repository.
pub fn is_assigned(assignments: &Vec<Assignment>, team: &str, repo: &str) -> (r: bool)
    ensures
        r == assigns(assignments.deep_view(), team@, repo@),
{
    let ghost all = assignments.deep_view();
    let mut i: usize = 0;
    while i < assignments.len()
        invariant
            i <= assignments.len(),
            all == assignments.deep_view(),
            forall|j: int| 0 <= j < i ==> !(all[j].team == team@ && all[j].repo == repo@),
        decreases assignments.len() - i,
    {
        if same_text(assignments[i].team.as_str(), team) && same_text(
            assignments[i].repo.as_str(),
            repo,
        ) {
            proof {
                assert(all[i as int].team == team@ && all[i as int].repo == repo@);
            }
            return true;
        }
        i += 1;
    }
    false
}

/// Once a team is found, later observations do not change the answer.
pub proof fn lemma_team_seen_position_stays(
    observed: Seq<TeamSeen>,
    name: Seq<char>,
    at: int,
    upto: int,
)
    requires
        at <= upto,
        team_seen_position(observed, name, at) is Some,
    ensures
        team_seen_position(observed, name, upto) == team_seen_position(observed, name, at),
    decreases upto - at,
{
    if at < upto {
        lemma_team_seen_position_stays(observed, name, at, upto - 1);
    }
}

/// Finds the first observation of a team under the name and with its
/// members.
pub fn find_team_seen(observed: &Vec<TeamObservation>, name: &str) -> (r: Option<usize>)
    ensures
        match r {
            Some(i) => i < observed.len() && team_seen_position(
                observed.deep_view(),
                name@,
                observed.len() as int,
            ) == Some(i as int),
            None => team_seen_position(observed.deep_view(), name@, observed.len() as int)
                is None,
        },
{
    let ghost all = observed.deep_view();
    let mut i: usize = 0;
    while i < observed.len()
        invariant
            i <= observed.len(),
            all == observed.deep_view(),
            team_seen_position(all, name@, i as int) is None,
        decreases observed.len() - i,
    {
        let named: bool = match &observed[i].slug {
            Some(n) => same_text(n.as_str(), name),
            None => false,
        };
        if named && observed[i].members.is_some() {
            proof {
                assert(is_team_seen_as(all[i as int], name@));
                lemma_team_seen_position_stays(all, name@, i + 1, observed.len() as int);
            }
            return Some(i);
        }
        i += 1;
    }
    None
}

/// Appends to `out` the permissions of a team that the local configuration
/// assigns.
pub fn push_grants(
    out: &mut Vec<Assignment>,
    local: &Vec<Assignment>,
    team: &str,
    repos: &Vec<TeamRepoResponse>,
)
    ensures
        final(out).deep_view() == old(out).deep_view() + observed_grants(
            local.deep_view(),
            team@,
            repos.deep_view(),
            repos.len() as int,
        ),
{
    let ghost start = out.deep_view();
    let ghost seen = repos.deep_view();
    let mut i: usize = 0;
    proof {
        assert(start + observed_grants(local.deep_view(), team@, seen, 0) =~= start);
    }
    while i < repos.len()
        invariant
            i <= repos.len(),
            seen == repos.deep_view(),
            out.deep_view() == start + observed_grants(local.deep_view(), team@, seen, i as int),
        decreases repos.len() - i,
    {
        let repo: &TeamRepoResponse = &repos[i];
        let granted: bool = repo.permissions.admin || repo.permissions.push
            || repo.permissions.pull;
        if granted && is_assigned(local, team, repo.name.as_str()) {
            let grant = Assignment {
                repo: repo.name.clone(),
                team: team.to_string(),
                permission: permission_level(&repo.permissions).to_string(),
            };
            let ghost before = out.deep_view();
            out.push(grant);
            proof {
                assert(out.deep_view() =~= before.push(grant@));
                assert(start + observed_grants(local.deep_view(), team@, seen, i + 1) =~= (start
                    + observed_grants(local.deep_view(), team@, seen, i as int)).push(grant@));
            }
        }
        i += 1;
    }
}

impl GitHubClient {
    /// Builds the state of the organization as a local configuration sees
    /// it, from what was observed: the repositories, teams and users that
    /// the local configuration names, the settings under the keys that it
    /// names, and the permissions that it assigns.
    pub fn generate_filtered_config_from_org(
        &self,
        local_config: &Config,
        observed: &OrgObservation,
    ) -> (r: Config)
        ensures
            r@ == filtered_config(self.org@, local_config@, observed@),
    {
        let ghost local = local_config@;
        let ghost seen = observed@;
        // Repositories, in the local order.
        let mut repos: Vec<Repo> = Vec::new();
        let mut i: usize = 0;
        proof {
            assert(repos.deep_view() =~= observed_repos(
                local.repos,
                local.default_webhook,
                seen.repos,
                0,
            ));
        }
        while i < local_config.repos.len()
            invariant
                i <= local_config.repos.len(),
                local == local_config@,
                seen == observed@,
                repos.deep_view() == observed_repos(
                    local.repos,
                    local.default_webhook,
                    seen.repos,
                    i as int,
                ),
            decreases local_config.repos.len() - i,
        {
            let local_repo: &Repo = &local_config.repos[i];
            match find_seen(&observed.repos, local_repo.name.as_str()) {
                Some(k) => {
                    let repo = snapshot_repo(
                        local_repo,
                        &local_config.default_webhook,
                        &observed.repos[k],
                    );
                    let ghost before = repos.deep_view();
                    repos.push(repo);
                    proof {
                        assert(repos.deep_view() =~= before.push(repo@));
                    }
                },
                None => {},
            }
            i += 1;
        }
        // Teams and their permissions.
        let mut teams: Vec<Team> = Vec::new();
        let mut assignments: Vec<Assignment> = Vec::new();
        proof {
            assert(teams.deep_view() =~= observed_teams(local.teams, seen.teams, 0));
            assert(assignments.deep_view() =~= observed_assignments(
                local.teams,
                local.assignments,
                seen.teams,
                0,
            ));
        }
        match &observed.teams {
            Some(team_list) => {
                let mut t: usize = 0;
                while t < team_list.len()
                    invariant
                        t <= team_list.len(),
                        local == local_config@,
                        seen.teams == team_list.deep_view(),
                        teams.deep_view() == observed_teams(local.teams, seen.teams, t as int),
                    decreases team_list.len() - t,
                {
                    let team_seen: &TeamObservation = &team_list[t];
                    match (&team_seen.slug, &team_seen.members) {
                        (Some(slug), Some(logins)) => {
                            if find_team(&local_config.teams, slug.as_str()).is_some() {
                                let mut members: Vec<String> = copy_texts(logins);
                                proof {
                                    assert(members.deep_view() =~= texts(logins@));
                                    assert(logins.deep_view() =~= texts(logins@));
                                }
                                sort_keyed(&mut members);
                                let team = Team { name: slug.clone(), members };
                                proof {
                                    assert(texts(team.members@) =~= team.members.deep_view());
                                }
                                let ghost before = teams.deep_view();
                                teams.push(team);
                                proof {
                                    assert(teams.deep_view() =~= before.push(team@));
                                }
                            }
                        },
                        _ => {},
                    }
                    t += 1;
                }
                let mut a: usize = 0;
                while a < local_config.teams.len()
                    invariant
                        a <= local_config.teams.len(),
                        local == local_config@,
                        seen.teams == team_list.deep_view(),
                        assignments.deep_view() == observed_assignments(
                            local.teams,
                            local.assignments,
                            seen.teams,
                            a as int,
                        ),
                    decreases local_config.teams.len() - a,
                {
                    let name: &str = local_config.teams[a].name.as_str();
                    let first: bool = match find_team(&local_config.teams, name) {
                        Some(p) => p == a,
                        None => false,
                    };
                    let ghost before = assignments.deep_view();
                    proof {
                        assert(team_names(local.teams)[a as int] == name@);
                    }
                    if first {
                        match find_team_seen(team_list, name) {
                            Some(k) => match &team_list[k].repos {
                                Some(team_repos) => {
                                    push_grants(
                                        &mut assignments,
                                        &local_config.assignments,
                                        name,
                                        team_repos,
                                    );
                                },
                                None => {
                                    proof {
                                        assert(before + Seq::<AssignmentModel>::empty()
                                            =~= before);
                                    }
                                },
                            },
                            None => {
                                proof {
                                    assert(before + Seq::<AssignmentModel>::empty() =~= before);
                                }
                            },
                        }
                    } else {
                        proof {
                            assert(before + Seq::<AssignmentModel>::empty() =~= before);
                        }
                    }
                    a += 1;
                }
            },
            None => {
                proof {
                    lemma_no_teams_no_assignments(
                        local.teams,
                        local.assignments,
                        local.teams.len() as int,
                    );
                }
            },
        }
        // Members of the organization.
        let mut users: Vec<User> = Vec::new();
        proof {
            assert(users.deep_view() =~= observed_users(local.users, seen.members, 0));
        }
        match &observed.members {
            Some(member_list) => {
                let mut m: usize = 0;
                while m < member_list.len()
                    invariant
                        m <= member_list.len(),
                        local == local_config@,
                        seen.members == member_list.deep_view(),
                        users.deep_view() == observed_users(
                            local.users,
                            seen.members,
                            m as int,
                        ),
                    decreases member_list.len() - m,
                {
                    match (&member_list[m].login, &member_list[m].role) {
                        (Some(login), Some(role)) => {
                            if find_user(&local_config.users, login.as_str()).is_some() {
                                let user = User { login: login.clone(), role: role.clone() };
                                let ghost before = users.deep_view();
                                users.push(user);
                                proof {
                                    assert(users.deep_view() =~= before.push(user@));
                                }
                            }
                        },
                        _ => {},
                    }
                    m += 1;
                }
            },
            None => {},
        }
        let r = Config {
            org: self.org.clone(),
            repos,
            teams,
            users,
            assignments,
            default_webhook: None,
            default_branch_protections: Vec::new(),
            extra: RepoSettings::new(),
        };
        proof {
            assert(r.default_branch_protections.deep_view() =~= Seq::<RuleModel>::empty());
        }
        r
    }
}

/// Where no team was observed, no permission was.
pub proof fn lemma_no_teams_no_assignments(
    local_teams: Seq<TeamModel>,
    local_assignments: Seq<AssignmentModel>,
    upto: int,
)
    requires
        0 <= upto <= local_teams.len(),
    ensures
        observed_assignments(local_teams, local_assignments, Seq::empty(), upto) == Seq::<
            AssignmentModel,
        >::empty(),
    decreases upto,
{
    if upto > 0 {
        lemma_no_teams_no_assignments(local_teams, local_assignments, upto - 1);
        assert(Seq::<AssignmentModel>::empty() + Seq::<AssignmentModel>::empty() =~= Seq::<
            AssignmentModel,
        >::empty());
    }
}

} // verus!
