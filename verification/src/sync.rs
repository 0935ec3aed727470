//! Applying a configuration: what is checked before anything is sent, and
//! in which order the resources are reconciled.

use crate::config::{Config, ConfigModel, Repo, RepoModel, WebhookConfig, WebhookModel};
use crate::error::{AppError, ErrorModel};
use crate::github::GitHubClient;
use crate::text::{blank, is_blank};
use vstd::prelude::*;

verus! {

broadcast use vstd::std_specs::vec::group_vec_axioms;

/// The repository with the organization's default webhook where it names
/// none of its own.
pub open spec fn with_default_webhook(repo: RepoModel, default_webhook: Option<WebhookModel>) -> RepoModel {
    RepoModel {
        webhook: if repo.webhook is None {
            default_webhook
        } else {
            repo.webhook
        },
        ..repo
    }
}

/// The repositories, each with the default webhook where it names none.
pub open spec fn backfilled(repos: Seq<RepoModel>, default_webhook: Option<WebhookModel>) -> Seq<
    RepoModel,
> {
    Seq::new(repos.len(), |i: int| with_default_webhook(repos[i], default_webhook))
}

/// The configuration as it takes effect: every repository with its own
/// webhook or the default one.
pub open spec fn effective(config: ConfigModel) -> ConfigModel {
    ConfigModel { repos: backfilled(config.repos, config.default_webhook), ..config }
}

/// Some repository has no webhook, neither its own nor a default one.
pub open spec fn lacks_webhook(config: ConfigModel) -> bool {
    config.default_webhook is None && exists|i: int|
        0 <= i < config.repos.len() && (#[trigger] config.repos[i]).webhook is None
}

/// Some repository has a name of white space only.
pub open spec fn has_blank_name(config: ConfigModel) -> bool {
    exists|i: int| 0 <= i < config.repos.len() && is_blank((#[trigger] config.repos[i]).name)
}

/// One resource to reconcile, by its position in the configuration.
#[derive(Clone, Copy, Debug, PartialEq, Eq, Structural)]
pub enum Step {
    /// The settings of a repository.
    Settings(usize),
    /// The webhook of a repository.
    Webhook(usize),
    /// A team and its members.
    Team(usize),
    /// A member of the organization.
    User(usize),
    /// The permission of a team on a repository.
    Assignment(usize),
}

/// The order in which resources are reconciled: each repository, first its
/// settings and then its webhook; then the teams; then the users; then the
/// assignments.
pub open spec fn steps_of(repos: nat, teams: nat, users: nat, assignments: nat) -> Seq<Step> {
    Seq::new(
        2 * repos,
        |k: int|
            if k % 2 == 0 {
                Step::Settings((k / 2) as usize)
            } else {
                Step::Webhook((k / 2) as usize)
            },
    ) + Seq::new(teams, |k: int| Step::Team(k as usize)) + Seq::new(
        users,
        |k: int| Step::User(k as usize),
    ) + Seq::new(assignments, |k: int| Step::Assignment(k as usize))
}

/// What is to be applied: the configuration as it takes effect, and the
/// order of the work.
#[derive(Debug)]
pub struct SyncPlan {
    pub config: Config,
    pub steps: Vec<Step>,
}

/// The message for a configuration in which a repository has no webhook.
pub open spec fn missing_webhook_message() -> Seq<char> {
    "Sync requires either a 'default_webhook' or explicit 'webhook' definition for every repo in the config."@
}

/// The message for a configuration in which a repository has no name.
pub open spec fn blank_name_message() -> Seq<char> {
    "Invalid empty repo name found in config."@
}

impl GitHubClient {
    /// Prepares the application of a configuration. The client turns to the
    /// organization that the configuration names. Nothing is to be sent
    /// where a repository has no webhook, neither its own nor a default one,
    /// or where a repository has a blank name: these are validation errors.
    /// Otherwise the plan holds the configuration with the default webhook
    /// filled in, and the steps in their order.
    #[verifier::loop_isolation(false)]
    pub fn sync(&mut self, config: Config) -> (r: Result<SyncPlan, AppError>)
        ensures
            final(self).org@ == config.org@,
            final(self).token@ == old(self).token@,
            match r {
                Ok(plan) => {
                    &&& !lacks_webhook(config@)
                    &&& !has_blank_name(config@)
                    &&& plan.config@ == effective(config@)
                    &&& plan.steps@ == steps_of(
                        config.repos.len() as nat,
                        config.teams.len() as nat,
                        config.users.len() as nat,
                        config.assignments.len() as nat,
                    )
                },
                Err(e) => if lacks_webhook(config@) {
                    e@ == ErrorModel::Validation(missing_webhook_message())
                } else {
                    has_blank_name(config@) && e@ == ErrorModel::Validation(blank_name_message())
                },
            },
    {
        self.org = config.org.clone();
        let Config {
            org,
            repos,
            teams,
            users,
            assignments,
            default_webhook,
            default_branch_protections,
            extra,
        } = config;
        let ghost given = repos.deep_view();
        let ghost default_model = default_webhook.deep_view();
        let n: usize = repos.len();
        let mut filled: Vec<Repo> = Vec::new();
        let mut i: usize = 0;
        while i < n
            invariant
                i <= n,
                n == repos.len(),
                given == repos.deep_view(),
                default_model == default_webhook.deep_view(),
                filled.len() == i,
                self.org@ == org@,
                self.token@ == old(self).token@,
                forall|k: int|
                    0 <= k < i ==> filled@[k]@ == with_default_webhook(given[k], default_model),
                forall|k: int| 0 <= k < i ==> !(default_model is None && given[k].webhook is None),
            decreases n - i,
        {
            let repo: &Repo = &repos[i];
            let webhook: Option<WebhookConfig> = match &repo.webhook {
                Some(w) => Some(w.clone()),
                None => match &default_webhook {
                    Some(d) => Some(d.clone()),
                    None => {
                        proof {
                            assert(given[i as int].webhook is None);
                        }
                        return Err(
                            AppError::Validation(
                                "Sync requires either a 'default_webhook' or explicit 'webhook' definition for every repo in the config.".to_string(),
                            ),
                        );
                    },
                },
            };
            let copy = Repo {
                name: repo.name.clone(),
                settings: repo.settings.clone(),
                visibility: crate::config::copy_optional_text(&repo.visibility),
                webhook,
                branch_protections: crate::config::copy_rules(&repo.branch_protections),
                extra: repo.extra.clone(),
            };
            filled.push(copy);
            i += 1;
        }
        let mut j: usize = 0;
        while j < n
            invariant
                j <= n,
                n == repos.len(),
                given == repos.deep_view(),
                self.org@ == org@,
                self.token@ == old(self).token@,
                forall|k: int| 0 <= k < j ==> !is_blank(given[k].name),
            decreases n - j,
        {
            if blank(repos[j].name.as_str()) {
                proof {
                    assert(is_blank(given[j as int].name));
                }
                return Err(
                    AppError::Validation("Invalid empty repo name found in config.".to_string()),
                );
            }
            j += 1;
        }
        let ghost wanted = steps_of(
            n as nat,
            teams.len() as nat,
            users.len() as nat,
            assignments.len() as nat,
        );
        let mut steps: Vec<Step> = Vec::new();
        let mut k: usize = 0;
        while k < n
            invariant
                k <= n,
                steps@ == wanted.take(2 * k),
                wanted == steps_of(
                    n as nat,
                    teams.len() as nat,
                    users.len() as nat,
                    assignments.len() as nat,
                ),
            decreases n - k,
        {
            steps.push(Step::Settings(k));
            steps.push(Step::Webhook(k));
            proof {
                assert(wanted[2 * k] == Step::Settings(k));
                assert(wanted[2 * k + 1] == Step::Webhook(k));
                assert(steps@ =~= wanted.take(2 * (k + 1)));
            }
            k += 1;
        }
        let mut t: usize = 0;
        while t < teams.len()
            invariant
                t <= teams.len(),
                steps@ == wanted.take(2 * n + t),
                wanted == steps_of(
                    n as nat,
                    teams.len() as nat,
                    users.len() as nat,
                    assignments.len() as nat,
                ),
            decreases teams.len() - t,
        {
            steps.push(Step::Team(t));
            proof {
                assert(wanted[2 * n + t] == Step::Team(t));
                assert(steps@ =~= wanted.take(2 * n + t + 1));
            }
            t += 1;
        }
        let mut u: usize = 0;
        while u < users.len()
            invariant
                u <= users.len(),
                steps@ == wanted.take(2 * n + teams.len() + u),
                wanted == steps_of(
                    n as nat,
                    teams.len() as nat,
                    users.len() as nat,
                    assignments.len() as nat,
                ),
            decreases users.len() - u,
        {
            steps.push(Step::User(u));
            proof {
                assert(wanted[2 * n + teams.len() + u] == Step::User(u));
                assert(steps@ =~= wanted.take(2 * n + teams.len() + u + 1));
            }
            u += 1;
        }
        let mut a: usize = 0;
        while a < assignments.len()
            invariant
                a <= assignments.len(),
                steps@ == wanted.take(2 * n + teams.len() + users.len() + a),
                wanted == steps_of(
                    n as nat,
                    teams.len() as nat,
                    users.len() as nat,
                    assignments.len() as nat,
                ),
            decreases assignments.len() - a,
        {
            steps.push(Step::Assignment(a));
            proof {
                assert(wanted[2 * n + teams.len() + users.len() + a] == Step::Assignment(a));
                assert(steps@ =~= wanted.take(2 * n + teams.len() + users.len() + a + 1));
            }
            a += 1;
        }
        proof {
            assert(steps@ =~= wanted);
            assert(filled.deep_view() =~= backfilled(given, default_model));
        }
        Ok(
            SyncPlan {
                config: Config {
                    org,
                    repos: filled,
                    teams,
                    users,
                    assignments,
                    default_webhook,
                    default_branch_protections,
                    extra,
                },
                steps,
            },
        )
    }
}

} // verus!
