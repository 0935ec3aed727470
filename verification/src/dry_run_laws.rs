//! What holds of a dry run: it plans the calls of a real run and sends none.

use crate::api_mapping::MappingModel;
use crate::config::{AssignmentModel, TeamModel, UserModel, WebhookModel};
use crate::github::{ActionModel, all_required, CallModel, settings_calls};
use crate::members::{assignment_plan, member_actions, team_plan, user_plan};
use crate::node::Tree;
use crate::webhooks::{HookModel, webhook_plan};
use vstd::prelude::*;

verus! {

/// The calls of a plan, whether they are sent or only reported.
pub open spec fn calls_of(actions: Seq<ActionModel>) -> Seq<CallModel> {
    Seq::new(actions.len(), |i: int| actions[i].call())
}

/// The plan sends nothing.
pub open spec fn sends_nothing(actions: Seq<ActionModel>) -> bool {
    forall|i: int| 0 <= i < actions.len() ==> (#[trigger] actions[i]) is Announce
}

/// The plan sends every call that it holds.
pub open spec fn sends_all(actions: Seq<ActionModel>) -> bool {
    forall|i: int| 0 <= i < actions.len() ==> !((#[trigger] actions[i]) is Announce)
}

/// The one plan is the dry run of the other: it holds the same calls and
/// sends none of them, while the other sends them all.
pub open spec fn is_dry_run_of(dry: Seq<ActionModel>, actual: Seq<ActionModel>) -> bool {
    &&& calls_of(dry) == calls_of(actual)
    &&& sends_nothing(dry)
    &&& sends_all(actual)
}

/// A dry run of the settings reconciler reports the calls that a real run
/// sends, and sends none.
pub proof fn lemma_dry_run_of_settings(
    desired: Seq<(Seq<char>, Tree)>,
    observed: Seq<(Seq<char>, Tree)>,
    table: Seq<MappingModel>,
    org: Seq<char>,
    repo: Seq<char>,
)
    ensures
        is_dry_run_of(
            all_required(settings_calls(desired, observed, table, org, repo), true),
            all_required(settings_calls(desired, observed, table, org, repo), false),
        ),
{
    let calls = settings_calls(desired, observed, table, org, repo);
    assert(calls_of(all_required(calls, true)) =~= calls_of(all_required(calls, false)));
}

/// A dry run of the webhook reconciler never fails and sends nothing; where
/// a real run has a plan, the dry run reports the calls that the real run
/// sends.
pub proof fn lemma_dry_run_of_webhook(
    org: Seq<char>,
    repo: Seq<char>,
    hooks: Seq<HookModel>,
    desired: WebhookModel,
)
    ensures
        match webhook_plan(org, repo, hooks, desired, true) {
            Ok(dry) => sends_nothing(dry) && match webhook_plan(org, repo, hooks, desired, false) {
                Ok(actual) => is_dry_run_of(dry, actual),
                Err(_) => dry.len() == 1,
            },
            Err(_) => false,
        },
{
    match (
        webhook_plan(org, repo, hooks, desired, true),
        webhook_plan(org, repo, hooks, desired, false),
    ) {
        (Ok(dry), Ok(actual)) => {
            assert(calls_of(dry) =~= calls_of(actual));
        },
        _ => {},
    }
}

/// A dry run of the team reconciler reports the calls that a real run
/// sends, and sends none.
pub proof fn lemma_dry_run_of_team(org: Seq<char>, team: TeamModel, exists: bool)
    ensures
        is_dry_run_of(team_plan(org, team, exists, true), team_plan(org, team, exists, false)),
{
    let dry = team_plan(org, team, exists, true);
    let actual = team_plan(org, team, exists, false);
    let dry_members = member_actions(org, team.name, team.members, true);
    let actual_members = member_actions(org, team.name, team.members, false);
    assert(dry.len() == actual.len());
    assert forall|i: int| 0 <= i < dry.len() implies (#[trigger] dry[i]) is Announce && !(actual[i]
        is Announce) && dry[i].call() == actual[i].call() by {
        if exists {
            assert(dry[i] == dry_members[i]);
            assert(actual[i] == actual_members[i]);
        } else if i > 0 {
            assert(dry[i] == dry_members[i - 1]);
            assert(actual[i] == actual_members[i - 1]);
        }
    }
    assert(calls_of(dry) =~= calls_of(actual));
}

/// A dry run of the user reconciler reports the call that a real run
/// sends, and sends none.
pub proof fn lemma_dry_run_of_user(org: Seq<char>, user: UserModel, current: Option<Seq<char>>)
    ensures
        is_dry_run_of(user_plan(org, user, current, true), user_plan(org, user, current, false)),
{
    assert(calls_of(user_plan(org, user, current, true)) =~= calls_of(
        user_plan(org, user, current, false),
    ));
}

/// A dry run of the assignment reconciler reports the call that a real run
/// sends, and sends none.
pub proof fn lemma_dry_run_of_assignment(
    org: Seq<char>,
    assignment: AssignmentModel,
    current: Option<Seq<char>>,
)
    ensures
        is_dry_run_of(
            assignment_plan(org, assignment, current, true),
            assignment_plan(org, assignment, current, false),
        ),
{
    assert(calls_of(assignment_plan(org, assignment, current, true)) =~= calls_of(
        assignment_plan(org, assignment, current, false),
    ));
}

} // verus!
