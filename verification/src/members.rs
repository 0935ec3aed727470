//! The reconcilers of teams, of members of the organization and of the
//! permissions of teams on repositories.

use crate::api_mapping::HttpMethod;
use crate::config::{Assignment, AssignmentModel, Team, TeamModel, texts, User, UserModel};
use crate::error::{AppError, ErrorModel, outcome};
use crate::github::{
    Action, ActionModel, ApiCall, CallModel, GitHubClient, require, required, tolerate, tolerated,
};
use crate::node::{Node, Tree};
use crate::text::same_text;
use crate::urls::{membership_url, team_membership_url, team_repo_url, teams_url};
use crate::webhooks::{mapping_value, text_value};
use vstd::prelude::*;

verus! {

broadcast use vstd::std_specs::vec::group_vec_axioms;

/// A team as GitHub reports it.
#[derive(Debug)]
pub struct TeamResponse {
    pub name: String,
}

/// What a team may do on a repository, as GitHub reports it.
#[derive(Clone, Copy, Debug, PartialEq, Eq, Structural)]
pub struct PermissionDetails {
    pub pull: bool,
    pub push: bool,
    pub admin: bool,
}

/// A repository of a team, with what the team may do on it, as GitHub
/// reports it.
#[derive(Debug)]
pub struct TeamRepoResponse {
    pub name: String,
    pub permissions: PermissionDetails,
}

/// The model of a [`TeamRepoResponse`].
pub struct TeamRepoModel {
    pub name: Seq<char>,
    pub permissions: PermissionDetails,
}

impl View for TeamRepoResponse {
    type V = TeamRepoModel;

    open spec fn view(&self) -> TeamRepoModel {
        TeamRepoModel { name: self.name@, permissions: self.permissions }
    }
}

impl DeepView for TeamRepoResponse {
    type V = TeamRepoModel;

    open spec fn deep_view(&self) -> TeamRepoModel {
        self@
    }
}

/// The permission level that the details amount to: the highest that is
/// granted.
pub open spec fn permission_of(details: PermissionDetails) -> Seq<char> {
    if details.admin {
        "admin"@
    } else if details.push {
        "push"@
    } else if details.pull {
        "pull"@
    } else {
        "none"@
    }
}

/// The permission level that the details amount to.
pub fn permission_level(details: &PermissionDetails) -> (r: &'static str)
    ensures
        r@ == permission_of(*details),
{
    if details.admin {
        "admin"
    } else if details.push {
        "push"
    } else if details.pull {
        "pull"
    } else {
        "none"
    }
}

/// The body that creates a team.
pub open spec fn create_team_body(name: Seq<char>) -> Tree {
    Tree::Dict(seq![("name"@, Tree::Text(name)), ("privacy"@, Tree::Text("closed"@))])
}

/// The call that creates a team.
pub open spec fn create_team_call(org: Seq<char>, name: Seq<char>) -> CallModel {
    CallModel { method: HttpMethod::Post, url: teams_url(org), body: Some(create_team_body(name)) }
}

/// The call that makes a login a member of a team.
pub open spec fn add_member_call(org: Seq<char>, team: Seq<char>, login: Seq<char>) -> CallModel {
    CallModel { method: HttpMethod::Put, url: team_membership_url(org, team, login), body: None }
}

/// The actions that make each login a member of a team; that one fails does
/// not keep the others from being tried.
pub open spec fn member_actions(
    org: Seq<char>,
    team: Seq<char>,
    members: Seq<Seq<char>>,
    dry_run: bool,
) -> Seq<ActionModel> {
    Seq::new(members.len(), |i: int| tolerated(add_member_call(org, team, members[i]), dry_run))
}

/// What the team reconciler plans: the team is created if it does not
/// exist, and every member is added or confirmed either way.
pub open spec fn team_plan(org: Seq<char>, team: TeamModel, exists: bool, dry_run: bool) -> Seq<
    ActionModel,
> {
    if exists {
        member_actions(org, team.name, team.members, dry_run)
    } else {
        seq![required(create_team_call(org, team.name), dry_run)] + member_actions(
            org,
            team.name,
            team.members,
            dry_run,
        )
    }
}

/// The call that gives a login a role in the organization.
pub open spec fn set_role_call(org: Seq<char>, user: UserModel) -> CallModel {
    CallModel {
        method: HttpMethod::Put,
        url: membership_url(org, user.login),
        body: Some(Tree::Dict(seq![("role"@, Tree::Text(user.role))])),
    }
}

/// What the user reconciler plans: the role is set where the login is no
/// member yet or has another role, and nothing is done otherwise.
pub open spec fn user_plan(
    org: Seq<char>,
    user: UserModel,
    current_role: Option<Seq<char>>,
    dry_run: bool,
) -> Seq<ActionModel> {
    if current_role == Some(user.role) {
        Seq::empty()
    } else {
        seq![required(set_role_call(org, user), dry_run)]
    }
}

/// The call that gives a team a permission on a repository.
pub open spec fn set_permission_call(org: Seq<char>, assignment: AssignmentModel) -> CallModel {
    CallModel {
        method: HttpMethod::Put,
        url: team_repo_url(org, assignment.team, assignment.repo),
        body: Some(Tree::Dict(seq![("permission"@, Tree::Text(assignment.permission))])),
    }
}

/// What the assignment reconciler plans: the permission is set where the
/// team has none on the repository or another one, and nothing is done
/// otherwise.
pub open spec fn assignment_plan(
    org: Seq<char>,
    assignment: AssignmentModel,
    current: Option<Seq<char>>,
    dry_run: bool,
) -> Seq<ActionModel> {
    if current == Some(assignment.permission) {
        Seq::empty()
    } else {
        seq![required(set_permission_call(org, assignment), dry_run)]
    }
}

impl GitHubClient {
    /// Reads the answer to the question whether a team exists: the team
    /// that GitHub reported, if it bears the name asked for; no team where
    /// it bears another name or GitHub says that there is none; any other
    /// error as it is.
    pub fn get_team(&self, team_name: &str, fetched: Result<TeamResponse, AppError>) -> (r: Result<
        Option<TeamResponse>,
        AppError,
    >)
        ensures
            match fetched {
                Ok(team) => r == Ok::<Option<TeamResponse>, AppError>(
                    if team.name@ == team_name@ {
                        Some(team)
                    } else {
                        None
                    },
                ),
                Err(e) => if e@.is_not_found() {
                    r == Ok::<Option<TeamResponse>, AppError>(None)
                } else {
                    r == Err::<Option<TeamResponse>, AppError>(e)
                },
            },
    {
        match fetched {
            Ok(team) => {
                if same_text(team.name.as_str(), team_name) {
                    Ok(Some(team))
                } else {
                    Ok(None)
                }
            },
            Err(e) => {
                if e.is_not_found() {
                    Ok(None)
                } else {
                    Err(e)
                }
            },
        }
    }

    /// Reads the answer to the question which role a login has in the
    /// organization: the role, none where GitHub says that there is no such
    /// member, any other error as it is.
    pub fn get_user_membership(&self, fetched: Result<String, AppError>) -> (r: Result<
        Option<String>,
        AppError,
    >)
        ensures
            match fetched {
                Ok(role) => r == Ok::<Option<String>, AppError>(Some(role)),
                Err(e) => if e@.is_not_found() {
                    r == Ok::<Option<String>, AppError>(None)
                } else {
                    r == Err::<Option<String>, AppError>(e)
                },
            },
    {
        match fetched {
            Ok(role) => Ok(Some(role)),
            Err(e) => {
                if e.is_not_found() {
                    Ok(None)
                } else {
                    Err(e)
                }
            },
        }
    }

    /// Reads the answer to the question which permission a team has on a
    /// repository. An answer without a body counts as `push`; one with
    /// details, as the highest permission granted; none where GitHub says
    /// that the team has nothing to do with the repository; any other error
    /// as it is.
    pub fn get_team_repo_permission(
        &self,
        fetched: Result<Option<PermissionDetails>, AppError>,
    ) -> (r: Result<Option<String>, AppError>)
        ensures
            match fetched {
                Ok(Some(details)) => outcome(r) == Ok::<Option<Seq<char>>, ErrorModel>(
                    Some(permission_of(details)),
                ),
                Ok(None) => outcome(r) == Ok::<Option<Seq<char>>, ErrorModel>(Some("push"@)),
                Err(e) => if e@.is_not_found() {
                    outcome(r) == Ok::<Option<Seq<char>>, ErrorModel>(None)
                } else {
                    outcome(r) == Err::<Option<Seq<char>>, ErrorModel>(e@)
                },
            },
    {
        match fetched {
            Ok(Some(details)) => Ok(Some(permission_level(&details).to_string())),
            Ok(None) => Ok(Some("push".to_string())),
            Err(e) => {
                if e.is_not_found() {
                    Ok(None)
                } else {
                    Err(e)
                }
            },
        }
    }

    /// Plans what brings a team to the desired state: the team is created
    /// if it does not exist, and each member is added or confirmed. A member
    /// that cannot be added does not end the run. In a dry run the calls
    /// are reported, not sent.
    pub fn create_team(&self, team: &Team, exists: bool, dry_run: bool) -> (r: Vec<Action>)
        ensures
            r.deep_view() == team_plan(self.org@, team@, exists, dry_run),
    {
        let mut actions: Vec<Action> = Vec::new();
        if !exists {
            let entries: Vec<(String, Node)> = vec![
                ("name".to_string(), text_value(team.name.as_str())),
                ("privacy".to_string(), text_value("closed")),
            ];
            let body = mapping_value(entries);
            proof {
                assert(body@->Dict_0 =~= create_team_body(team.name@)->Dict_0);
            }
            let call = ApiCall {
                method: HttpMethod::Post,
                url: self.teams_address(),
                body: Some(body),
            };
            actions.push(require(call, dry_run));
        }
        let ghost head = actions.deep_view();
        let ghost members = texts(team.members@);
        let ghost tail = member_actions(self.org@, team.name@, members, dry_run);
        let mut i: usize = 0;
        proof {
            assert(actions.deep_view() =~= head + tail.take(0));
        }
        while i < team.members.len()
            invariant
                i <= team.members.len(),
                members == texts(team.members@),
                tail == member_actions(self.org@, team.name@, members, dry_run),
                actions.deep_view() == head + tail.take(i as int),
            decreases team.members.len() - i,
        {
            let call = ApiCall {
                method: HttpMethod::Put,
                url: self.team_membership_address(team.name.as_str(), team.members[i].as_str()),
                body: None,
            };
            let ghost before = actions.deep_view();
            let action = tolerate(call, dry_run);
            actions.push(action);
            proof {
                assert(actions.deep_view() =~= before.push(action@));
                assert(action@ == tail[i as int]);
                assert(head + tail.take(i + 1) =~= (head + tail.take(i as int)).push(
                    tail[i as int],
                ));
            }
            i += 1;
        }
        proof {
            assert(tail.take(team.members.len() as int) =~= tail);
            if exists {
                assert(head =~= Seq::<ActionModel>::empty());
                assert(head + tail =~= tail);
            } else {
                assert(head =~= seq![required(create_team_call(self.org@, team.name@), dry_run)]);
            }
        }
        actions
    }

    /// Plans what gives a login its desired role in the organization, given
    /// the role it has: the role is set where the login is no member yet or
    /// has another role. In a dry run the call is reported, not sent.
    pub fn add_user_to_org(&self, user: &User, current_role: &Option<String>, dry_run: bool) -> (r:
        Vec<Action>)
        ensures
            r.deep_view() == user_plan(self.org@, user@, current_role.deep_view(), dry_run),
    {
        let mut actions: Vec<Action> = Vec::new();
        let settled: bool = match current_role {
            Some(role) => same_text(role.as_str(), user.role.as_str()),
            None => false,
        };
        if !settled {
            let entries: Vec<(String, Node)> = vec![
                ("role".to_string(), text_value(user.role.as_str())),
            ];
            let body = mapping_value(entries);
            proof {
                assert(body@->Dict_0 =~= seq![("role"@, Tree::Text(user.role@))]);
            }
            let call = ApiCall {
                method: HttpMethod::Put,
                url: self.membership_address(user.login.as_str()),
                body: Some(body),
            };
            actions.push(require(call, dry_run));
            proof {
                assert(actions.deep_view() =~= seq![required(set_role_call(self.org@, user@), dry_run)]);
            }
        } else {
            proof {
                assert(actions.deep_view() =~= Seq::<ActionModel>::empty());
            }
        }
        actions
    }

    /// Plans what gives a team its desired permission on a repository,
    /// given the permission it has: the permission is set where the team
    /// has none or another one. In a dry run the call is reported, not sent.
    pub fn assign_team_to_repo(
        &self,
        assignment: &Assignment,
        current: &Option<String>,
        dry_run: bool,
    ) -> (r: Vec<Action>)
        ensures
            r.deep_view() == assignment_plan(
                self.org@,
                assignment@,
                current.deep_view(),
                dry_run,
            ),
    {
        let mut actions: Vec<Action> = Vec::new();
        let settled: bool = match current {
            Some(permission) => same_text(permission.as_str(), assignment.permission.as_str()),
            None => false,
        };
        if !settled {
            let entries: Vec<(String, Node)> = vec![
                ("permission".to_string(), text_value(assignment.permission.as_str())),
            ];
            let body = mapping_value(entries);
            proof {
                assert(body@->Dict_0 =~= seq![("permission"@, Tree::Text(assignment.permission@))]);
            }
            let call = ApiCall {
                method: HttpMethod::Put,
                url: self.team_repo_address(
                    assignment.team.as_str(),
                    assignment.repo.as_str(),
                ),
                body: Some(body),
            };
            actions.push(require(call, dry_run));
            proof {
                assert(actions.deep_view() =~= seq![
                    required(set_permission_call(self.org@, assignment@), dry_run),
                ]);
            }
        } else {
            proof {
                assert(actions.deep_view() =~= Seq::<ActionModel>::empty());
            }
        }
        actions
    }
}

impl Action {
    /// What the run makes of the outcome of an action: the error of a call
    /// that had to succeed ends the run; the error of a call that was only
    /// attempted does not, and neither does anything in a dry run.
    pub fn settle(&self, result: Result<(), AppError>) -> (r: Result<(), AppError>)
        ensures
            match (self, result) {
                (Action::Send(_), Err(e)) => r == Err::<(), AppError>(e),
                _ => r is Ok,
            },
    {
        match self {
            Action::Send(_) => result,
            _ => Ok(()),
        }
    }
}

} // verus!
