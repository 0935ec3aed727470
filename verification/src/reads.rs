//! Reading the state of an organization: which reads a snapshot needs, and
//! what becomes of a snapshot when a read fails.

use crate::config::{Repo, WebhookConfig};
use crate::error::AppError;
use crate::snapshot::{hook_target, RepoObservation, TeamObservation};
use vstd::prelude::*;

verus! {

/// The snapshot that is built.
#[derive(Clone, Copy, Debug, PartialEq, Eq, Structural)]
pub enum SnapshotMode {
    /// The state as a local configuration sees it, for a comparison.
    Filtered,
    /// All of the state, for a generated configuration.
    Full,
}

/// What is read.
#[derive(Clone, Copy, Debug, PartialEq, Eq, Structural)]
pub enum ReadKind {
    /// The list of the organization's repositories.
    RepoList,
    /// The settings of a repository.
    RepoSettings,
    /// The webhooks of a repository.
    Webhooks,
    /// The list of the organization's teams.
    TeamList,
    /// The members of a team.
    TeamMembers,
    /// The repositories of a team.
    TeamRepos,
    /// The list of the organization's members.
    MemberList,
    /// The role of a member.
    Membership,
}

/// Where a read failed.
#[derive(Clone, Copy, Debug, PartialEq, Eq, Structural)]
pub enum ReadStage {
    /// No answer came, or GitHub answered with a failure.
    Fetch,
    /// The answer came and could not be understood.
    Parse,
}

/// What becomes of a snapshot when a read fails.
#[derive(Clone, Copy, Debug, PartialEq, Eq, Structural)]
pub enum Recovery {
    /// The snapshot goes on without what the read was for.
    Skip,
    /// The snapshot fails with the error of the read.
    Abort,
}

/// What becomes of a snapshot when a read fails.
///
/// A comparison shows what it can: it fails only where the list of
/// repositories cannot be had, or where a list of teams, of members or of
/// a team's members came and could not be understood; a resource whose
/// read fails otherwise is left out. A generated configuration must be
/// whole: it fails with every read but those of the settings and of the
/// webhooks of a repository, without which a repository is listed bare.
pub open spec fn recovery_after(mode: SnapshotMode, kind: ReadKind, stage: ReadStage) -> Recovery {
    match mode {
        SnapshotMode::Filtered => match (kind, stage) {
            (ReadKind::RepoList, _) => Recovery::Abort,
            (ReadKind::TeamList, ReadStage::Parse) => Recovery::Abort,
            (ReadKind::TeamMembers, ReadStage::Parse) => Recovery::Abort,
            (ReadKind::MemberList, ReadStage::Parse) => Recovery::Abort,
            _ => Recovery::Skip,
        },
        SnapshotMode::Full => match kind {
            ReadKind::RepoSettings => Recovery::Skip,
            ReadKind::Webhooks => Recovery::Skip,
            _ => Recovery::Abort,
        },
    }
}

/// Decides what becomes of a snapshot when a read fails.
pub fn recovery(mode: SnapshotMode, kind: ReadKind, stage: ReadStage) -> (r: Recovery)
    ensures
        r == recovery_after(mode, kind, stage),
{
    match mode {
        SnapshotMode::Filtered => match (kind, stage) {
            (ReadKind::RepoList, _) => Recovery::Abort,
            (ReadKind::TeamList, ReadStage::Parse) => Recovery::Abort,
            (ReadKind::TeamMembers, ReadStage::Parse) => Recovery::Abort,
            (ReadKind::MemberList, ReadStage::Parse) => Recovery::Abort,
            _ => Recovery::Skip,
        },
        SnapshotMode::Full => match kind {
            ReadKind::RepoSettings => Recovery::Skip,
            ReadKind::Webhooks => Recovery::Skip,
            _ => Recovery::Abort,
        },
    }
}

/// Makes of the outcome of a read what the snapshot goes on with: what was
/// read; nothing, where the read failed and the snapshot goes on without
/// it; or the error, where the snapshot fails with it.
pub fn recover<T>(mode: SnapshotMode, kind: ReadKind, stage: ReadStage, outcome: Result<T, AppError>) -> (r:
    Result<Option<T>, AppError>)
    ensures
        match outcome {
            Ok(v) => r == Ok::<Option<T>, AppError>(Some(v)),
            Err(e) => match recovery_after(mode, kind, stage) {
                Recovery::Skip => r == Ok::<Option<T>, AppError>(None),
                Recovery::Abort => r == Err::<Option<T>, AppError>(e),
            },
        },
{
    match outcome {
        Ok(v) => Ok(Some(v)),
        Err(e) => match recovery(mode, kind, stage) {
            Recovery::Skip => Ok(None),
            Recovery::Abort => Err(e),
        },
    }
}

/// Tests whether a comparison needs the webhooks of a repository: its
/// settings were read, and the local repository has a webhook of its own
/// or a default one to compare with.
pub fn needs_webhooks(
    local: &Repo,
    default_webhook: &Option<WebhookConfig>,
    seen: &RepoObservation,
) -> (r: bool)
    ensures
        r == (seen@.settings is Some && hook_target(local@, default_webhook.deep_view()) is Some),
{
    seen.settings.is_some() && (local.webhook.is_some() || default_webhook.is_some())
}

/// Tests whether a comparison needs the repositories of a team: its
/// members were read, so that the team is part of the snapshot.
pub fn needs_team_repos(seen: &TeamObservation) -> (r: bool)
    ensures
        r == (seen@.members is Some),
{
    seen.members.is_some()
}

/// The defaults that are merged into a configuration: the text of the file
/// of defaults, where one is named and could be read. A file of defaults
/// that cannot be read is passed over.
pub fn readable_defaults(read: Option<Result<String, AppError>>) -> (r: Option<String>)
    ensures
        r == match read {
            Some(Ok(text)) => Some(text),
            _ => None,
        },
{
    match read {
        Some(Ok(text)) => Some(text),
        _ => None,
    }
}

} // verus!
