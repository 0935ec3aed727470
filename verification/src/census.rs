//! The full snapshot: everything that was observed of an organization, as a
//! configuration that could have brought it about.

use crate::config::{
    Assignment, AssignmentModel, Config, ConfigModel, copy_texts, Repo, RepoModel, RepoSettings,
    RuleModel, Team, TeamModel, texts, User, UserModel, WebhookConfig, WebhookModel,
};
use crate::error::{AppError, ErrorModel, outcome};
use crate::github::GitHubClient;
use crate::members::{permission_level, permission_of, TeamRepoModel, TeamRepoResponse};
use crate::node::{dict_get, Tree};
use crate::order::{sort_keyed, stable_sort};
use crate::snapshot::{
    MemberSeen, OrgObservation, OrgSeen, RepoObservation, RepoSeen, TeamSeen, visibility_of,
};
use crate::webhooks::HookModel;
use vstd::prelude::*;

verus! {

broadcast use vstd::std_specs::vec::group_vec_axioms;

/// The settings that a generated configuration manages.
pub open spec fn managed_keys() -> Seq<Seq<char>> {
    seq!["allow_merge_commit"@, "allow_squash_merge"@, "allow_rebase_merge"@]
}

/// The managed settings among the observed ones, among the first `upto`
/// managed keys.
pub open spec fn managed_settings(full: Seq<(Seq<char>, Tree)>, upto: int) -> Seq<(Seq<char>, Tree)>
    decreases upto,
{
    if upto <= 0 {
        Seq::empty()
    } else {
        let rest = managed_settings(full, upto - 1);
        match dict_get(full, managed_keys()[upto - 1]) {
            Some(v) => rest.push((managed_keys()[upto - 1], v)),
            None => rest,
        }
    }
}

/// The first of the observed webhooks, as a webhook of the configuration.
pub open spec fn first_webhook(hooks: Option<Seq<HookModel>>) -> Option<WebhookModel> {
    match hooks {
        Some(seen) => if seen.len() > 0 {
            Some(
                WebhookModel {
                    url: seen[0].target,
                    content_type: seen[0].content_type,
                    events: seen[0].events,
                },
            )
        } else {
            None
        },
        None => None,
    }
}

/// What is taken of a list that may not have been read.
pub open spec fn or_empty<T>(list: Option<Seq<T>>) -> Seq<T> {
    match list {
        Some(l) => l,
        None => Seq::empty(),
    }
}

/// A repository as it was observed: its managed settings, its visibility
/// and its first webhook.
pub open spec fn full_repo(seen: RepoSeen) -> RepoModel {
    RepoModel {
        name: seen.name->0,
        settings: managed_settings(or_empty(seen.settings), 3),
        visibility: Some(visibility_of(seen.private)),
        webhook: first_webhook(seen.hooks),
        branch_protections: Seq::empty(),
        extra: Seq::empty(),
    }
}

/// A team as it was observed, its members sorted.
pub open spec fn full_team(seen: TeamSeen) -> TeamModel {
    TeamModel { name: seen.slug->0, members: stable_sort(or_empty(seen.members)) }
}

/// A member as it was observed; one whose role was not reported counts as
/// a plain member.
pub open spec fn full_user(seen: MemberSeen) -> UserModel {
    UserModel {
        login: seen.login->0,
        role: match seen.role {
            Some(r) => r,
            None => "member"@,
        },
    }
}

/// The permissions of a team on the first `upto` of its repositories; a
/// repository on which the team may do nothing is left out.
pub open spec fn all_grants(team: Seq<char>, repos: Seq<TeamRepoModel>, upto: int) -> Seq<
    AssignmentModel,
>
    decreases upto,
{
    if upto <= 0 {
        Seq::empty()
    } else {
        let rest = all_grants(team, repos, upto - 1);
        let repo = repos[upto - 1];
        if repo.permissions.admin || repo.permissions.push || repo.permissions.pull {
            rest.push(
                AssignmentModel {
                    repo: repo.name,
                    team,
                    permission: permission_of(repo.permissions),
                },
            )
        } else {
            rest
        }
    }
}

/// The permissions of the first `upto` observed teams.
pub open spec fn full_assignments(teams: Seq<TeamSeen>, upto: int) -> Seq<AssignmentModel>
    decreases upto,
{
    if upto <= 0 {
        Seq::empty()
    } else {
        let repos = or_empty(teams[upto - 1].repos);
        full_assignments(teams, upto - 1) + all_grants(
            teams[upto - 1].slug->0,
            repos,
            repos.len() as int,
        )
    }
}

/// The webhook of the first of the first `upto` repositories that has one.
pub open spec fn first_repo_webhook(repos: Seq<RepoModel>, upto: int) -> Option<WebhookModel>
    decreases upto,
{
    if upto <= 0 {
        None
    } else {
        match first_repo_webhook(repos, upto - 1) {
            Some(w) => Some(w),
            None => repos[upto - 1].webhook,
        }
    }
}

/// An entry of the repository list bears no name.
pub open spec fn nameless_repo(seen: OrgSeen) -> bool {
    exists|i: int| 0 <= i < seen.repos.len() && (#[trigger] seen.repos[i]).name is None
}

/// An entry of the team list bears no slug.
pub open spec fn nameless_team(seen: OrgSeen) -> bool {
    exists|i: int| 0 <= i < seen.teams.len() && (#[trigger] seen.teams[i]).slug is None
}

/// An entry of the member list bears no login.
pub open spec fn nameless_member(seen: OrgSeen) -> bool {
    exists|i: int| 0 <= i < seen.members.len() && (#[trigger] seen.members[i]).login is None
}

/// The configuration that describes all that was observed, or what is
/// missing in the observation.
pub open spec fn unfiltered_config(org: Seq<char>, seen: OrgSeen) -> Result<ConfigModel, ErrorModel> {
    if nameless_repo(seen) {
        Err(ErrorModel::GitHubApi("Missing repo name"@))
    } else if nameless_team(seen) {
        Err(ErrorModel::GitHubApi("Missing team slug"@))
    } else if nameless_member(seen) {
        Err(ErrorModel::GitHubApi("Missing member login"@))
    } else {
        let repos = Seq::new(seen.repos.len(), |i: int| full_repo(seen.repos[i]));
        Ok(
            ConfigModel {
                org,
                repos,
                teams: Seq::new(seen.teams.len(), |i: int| full_team(seen.teams[i])),
                users: Seq::new(seen.members.len(), |i: int| full_user(seen.members[i])),
                assignments: full_assignments(seen.teams, seen.teams.len() as int),
                default_webhook: first_repo_webhook(repos, repos.len() as int),
                default_branch_protections: Seq::empty(),
                extra: Seq::empty(),
            },
        )
    }
}

/// Picks the managed settings out of the observed ones.
pub fn pick_managed(full: &RepoSettings) -> (r: RepoSettings)
    ensures
        r@ == managed_settings(full@, 3),
{
    let keys: [&str; 3] = ["allow_merge_commit", "allow_squash_merge", "allow_rebase_merge"];
    let mut out = RepoSettings::new();
    let mut i: usize = 0;
    proof {
        assert(out@ =~= managed_settings(full@, 0));
    }
    while i < 3
        invariant
            i <= 3,
            keys@ == seq!["allow_merge_commit", "allow_squash_merge", "allow_rebase_merge"],
            out@ == managed_settings(full@, i as int),
        decreases 3 - i,
    {
        let key: &str = keys[i];
        proof {
            assert(key@ == managed_keys()[i as int]);
        }
        match full.get(key) {
            Some(v) => {
                let ghost before = out@;
                out.entries.push((key.to_string(), v.duplicate()));
                proof {
                    assert(out@ =~= before.push((key@, v@)));
                }
            },
            None => {},
        }
        i += 1;
    }
    out
}

/// Appends to `out` the permissions of a team on its repositories.
pub fn push_all_grants(out: &mut Vec<Assignment>, team: &str, repos: &Vec<TeamRepoResponse>)
    ensures
        final(out).deep_view() == old(out).deep_view() + all_grants(
            team@,
            repos.deep_view(),
            repos.len() as int,
        ),
{
    let ghost start = out.deep_view();
    let ghost seen = repos.deep_view();
    let mut i: usize = 0;
    proof {
        assert(start + all_grants(team@, seen, 0) =~= start);
    }
    while i < repos.len()
        invariant
            i <= repos.len(),
            seen == repos.deep_view(),
            out.deep_view() == start + all_grants(team@, seen, i as int),
        decreases repos.len() - i,
    {
        let repo: &TeamRepoResponse = &repos[i];
        if repo.permissions.admin || repo.permissions.push || repo.permissions.pull {
            let grant = Assignment {
                repo: repo.name.clone(),
                team: team.to_string(),
                permission: permission_level(&repo.permissions).to_string(),
            };
            let ghost before = out.deep_view();
            out.push(grant);
            proof {
                assert(out.deep_view() =~= before.push(grant@));
                assert(start + all_grants(team@, seen, i + 1) =~= (start + all_grants(
                    team@,
                    seen,
                    i as int,
                )).push(grant@));
            }
        }
        i += 1;
    }
}

impl GitHubClient {
    /// Builds the repository of a generated configuration from what was
    /// observed of it.
    fn census_repo(name: &String, seen: &RepoObservation) -> (r: Repo)
        requires
            seen.name == Some(*name),
        ensures
            r@ == full_repo(seen@),
    {
        let settings: RepoSettings = match &seen.settings {
            Some(s) => pick_managed(s),
            None => {
                let none = RepoSettings::new();
                pick_managed(&none)
            },
        };
        let visibility: String = match seen.private {
            Some(true) => "private".to_string(),
            _ => "public".to_string(),
        };
        let webhook: Option<WebhookConfig> = match &seen.hooks {
            Some(hooks) => if hooks.len() > 0 {
                Some(
                    WebhookConfig {
                        url: hooks[0].config.url.clone(),
                        content_type: hooks[0].config.content_type.clone(),
                        events: copy_texts(&hooks[0].events),
                    },
                )
            } else {
                None
            },
            None => None,
        };
        let r = Repo {
            name: name.clone(),
            settings,
            visibility: Some(visibility),
            webhook,
            branch_protections: Vec::new(),
            extra: RepoSettings::new(),
        };
        proof {
            assert(r.branch_protections.deep_view() =~= Seq::<RuleModel>::empty());
        }
        r
    }

    /// Builds the configuration that describes all that was observed of
    /// the organization: every repository with its managed settings, its
    /// visibility and its first webhook; every team with its members; every
    /// member with its role; every permission of a team on a repository.
    /// The first webhook found becomes the default one. An entry of a list
    /// without its name is an error.
    pub fn generate_unfiltered_config_from_org(&self, observed: &OrgObservation) -> (r: Result<
        Config,
        AppError,
    >)
        ensures
            outcome(r) == unfiltered_config(self.org@, observed@),
    {
        let ghost seen = observed@;
        let mut repos: Vec<Repo> = Vec::new();
        let mut default_webhook: Option<WebhookConfig> = None;
        let ghost wanted_repos = Seq::new(seen.repos.len(), |i: int| full_repo(seen.repos[i]));
        let mut i: usize = 0;
        while i < observed.repos.len()
            invariant
                i <= observed.repos.len(),
                seen == observed@,
                wanted_repos == Seq::new(seen.repos.len(), |i: int| full_repo(seen.repos[i])),
                repos.len() == i,
                forall|k: int| 0 <= k < i ==> seen.repos[k].name is Some,
                forall|k: int| 0 <= k < i ==> repos@[k]@ == wanted_repos[k],
                default_webhook.deep_view() == first_repo_webhook(wanted_repos, i as int),
            decreases observed.repos.len() - i,
        {
            match &observed.repos[i].name {
                Some(name) => {
                    let repo = Self::census_repo(name, &observed.repos[i]);
                    if default_webhook.is_none() {
                        default_webhook = crate::config::copy_optional_webhook(&repo.webhook);
                    }
                    repos.push(repo);
                },
                None => {
                    proof {
                        assert(seen.repos[i as int].name is None);
                    }
                    return Err(AppError::GitHubApi("Missing repo name".to_string()));
                },
            }
            i += 1;
        }
        let mut teams: Vec<Team> = Vec::new();
        let mut assignments: Vec<Assignment> = Vec::new();
        proof {
            assert(assignments.deep_view() =~= full_assignments(seen.teams, 0));
        }
        match &observed.teams {
            Some(team_list) => {
                let mut t: usize = 0;
                while t < team_list.len()
                    invariant
                        t <= team_list.len(),
                        seen == observed@,
                        seen.teams == team_list.deep_view(),
                        !nameless_repo(seen),
                        teams.len() == t,
                        forall|k: int| 0 <= k < t ==> seen.teams[k].slug is Some,
                        forall|k: int| 0 <= k < t ==> teams@[k]@ == full_team(seen.teams[k]),
                        assignments.deep_view() == full_assignments(seen.teams, t as int),
                    decreases team_list.len() - t,
                {
                    match &team_list[t].slug {
                        Some(slug) => {
                            let mut members: Vec<String> = match &team_list[t].members {
                                Some(logins) => {
                                    let copy = copy_texts(logins);
                                    proof {
                                        assert(copy.deep_view() =~= texts(logins@));
                                        assert(logins.deep_view() =~= texts(logins@));
                                    }
                                    copy
                                },
                                None => {
                                    let none: Vec<String> = Vec::new();
                                    proof {
                                        assert(none.deep_view() =~= Seq::<Seq<char>>::empty());
                                    }
                                    none
                                },
                            };
                            sort_keyed(&mut members);
                            let team = Team { name: slug.clone(), members };
                            proof {
                                assert(texts(team.members@) =~= team.members.deep_view());
                            }
                            teams.push(team);
                            match &team_list[t].repos {
                                Some(team_repos) => {
                                    push_all_grants(&mut assignments, slug.as_str(), team_repos);
                                },
                                None => {
                                    proof {
                                        assert(assignments.deep_view() + all_grants(
                                            slug@,
                                            Seq::empty(),
                                            0,
                                        ) =~= assignments.deep_view());
                                    }
                                },
                            }
                        },
                        None => {
                            proof {
                                assert(seen.teams[t as int].slug is None);
                            }
                            return Err(AppError::GitHubApi("Missing team slug".to_string()));
                        },
                    }
                    t += 1;
                }
            },
            None => {},
        }
        let mut users: Vec<User> = Vec::new();
        match &observed.members {
            Some(member_list) => {
                let mut m: usize = 0;
                while m < member_list.len()
                    invariant
                        m <= member_list.len(),
                        seen == observed@,
                        seen.members == member_list.deep_view(),
                        !nameless_repo(seen),
                        !nameless_team(seen),
                        users.len() == m,
                        forall|k: int| 0 <= k < m ==> seen.members[k].login is Some,
                        forall|k: int| 0 <= k < m ==> users@[k]@ == full_user(seen.members[k]),
                    decreases member_list.len() - m,
                {
                    match &member_list[m].login {
                        Some(login) => {
                            let role: String = match &member_list[m].role {
                                Some(r) => r.clone(),
                                None => "member".to_string(),
                            };
                            users.push(User { login: login.clone(), role });
                        },
                        None => {
                            proof {
                                assert(seen.members[m as int].login is None);
                            }
                            return Err(AppError::GitHubApi("Missing member login".to_string()));
                        },
                    }
                    m += 1;
                }
            },
            None => {},
        }
        let r = Config {
            org: self.org.clone(),
            repos,
            teams,
            users,
            assignments,
            default_webhook,
            default_branch_protections: Vec::new(),
            extra: RepoSettings::new(),
        };
        proof {
            assert(r.default_branch_protections.deep_view() =~= Seq::<RuleModel>::empty());
            assert(r.repos.deep_view() =~= wanted_repos);
            assert(r.teams.deep_view() =~= Seq::new(
                seen.teams.len(),
                |i: int| full_team(seen.teams[i]),
            ));
            assert(r.users.deep_view() =~= Seq::new(
                seen.members.len(),
                |i: int| full_user(seen.members[i]),
            ));
        }
        Ok(r)
    }
}

} // verus!
