use gh_config_cli::config::{Repo, RepoSettings, WebhookConfig};
use gh_config_cli::error::AppError;
use gh_config_cli::reads::{
    needs_team_repos, needs_webhooks, readable_defaults, recover, recovery, ReadKind,
    ReadStage, Recovery, SnapshotMode,
};
use gh_config_cli::snapshot::{RepoObservation, TeamObservation};

const KINDS: [ReadKind; 8] = [
    ReadKind::RepoList,
    ReadKind::RepoSettings,
    ReadKind::Webhooks,
    ReadKind::TeamList,
    ReadKind::TeamMembers,
    ReadKind::TeamRepos,
    ReadKind::MemberList,
    ReadKind::Membership,
];

#[test]
fn a_comparison_goes_on_without_what_cannot_be_read() {
    let mode = SnapshotMode::Filtered;
    for kind in KINDS {
        let fetch = match kind {
            ReadKind::RepoList => Recovery::Abort,
            _ => Recovery::Skip,
        };
        let parse = match kind {
            ReadKind::RepoList
            | ReadKind::TeamList
            | ReadKind::TeamMembers
            | ReadKind::MemberList => Recovery::Abort,
            _ => Recovery::Skip,
        };
        assert_eq!(recovery(mode, kind, ReadStage::Fetch), fetch, "{:?}", kind);
        assert_eq!(recovery(mode, kind, ReadStage::Parse), parse, "{:?}", kind);
    }
}

#[test]
fn a_generated_configuration_needs_every_read_but_those_of_a_repository() {
    let mode = SnapshotMode::Full;
    for kind in KINDS {
        let expected = match kind {
            ReadKind::RepoSettings | ReadKind::Webhooks => Recovery::Skip,
            _ => Recovery::Abort,
        };
        assert_eq!(recovery(mode, kind, ReadStage::Fetch), expected, "{:?}", kind);
        assert_eq!(recovery(mode, kind, ReadStage::Parse), expected, "{:?}", kind);
    }
}

#[test]
fn outcomes_of_reads_are_settled() {
    let failed = || Err::<u8, AppError>(AppError::GitHubApi("500".to_string()));
    assert_eq!(
        recover(SnapshotMode::Full, ReadKind::TeamList, ReadStage::Fetch, Ok::<u8, AppError>(7))
            .unwrap(),
        Some(7)
    );
    assert_eq!(
        recover(SnapshotMode::Filtered, ReadKind::TeamList, ReadStage::Fetch, failed()).unwrap(),
        None
    );
    match recover(SnapshotMode::Filtered, ReadKind::TeamList, ReadStage::Parse, failed()) {
        Err(AppError::GitHubApi(body)) => assert_eq!(body, "500"),
        other => panic!("unexpected: {:?}", other),
    }
    assert!(recover(SnapshotMode::Full, ReadKind::Membership, ReadStage::Fetch, failed()).is_err());
    assert_eq!(
        recover(SnapshotMode::Full, ReadKind::Webhooks, ReadStage::Parse, failed()).unwrap(),
        None
    );
}

#[test]
fn webhooks_and_team_repositories_are_read_where_they_count() {
    let repo = |webhook: Option<WebhookConfig>| Repo {
        name: "r".to_string(),
        settings: RepoSettings::new(),
        visibility: None,
        webhook,
        branch_protections: vec![],
        extra: RepoSettings::new(),
    };
    let hook = || {
        Some(WebhookConfig { url: "u".to_string(), content_type: "json".to_string(), events: vec![] })
    };
    let seen = |settings: Option<RepoSettings>| RepoObservation {
        name: Some("r".to_string()),
        private: None,
        settings,
        hooks: None,
    };
    assert!(needs_webhooks(&repo(hook()), &None, &seen(Some(RepoSettings::new()))));
    assert!(needs_webhooks(&repo(None), &hook(), &seen(Some(RepoSettings::new()))));
    assert!(!needs_webhooks(&repo(None), &None, &seen(Some(RepoSettings::new()))));
    assert!(!needs_webhooks(&repo(hook()), &hook(), &seen(None)));
    let team = |members: Option<Vec<String>>| TeamObservation {
        slug: Some("t".to_string()),
        members,
        repos: None,
    };
    assert!(needs_team_repos(&team(Some(vec![]))));
    assert!(!needs_team_repos(&team(None)));
}

#[test]
fn defaults_that_cannot_be_read_are_passed_over() {
    assert_eq!(readable_defaults(None), None);
    assert_eq!(readable_defaults(Some(Ok("a: 1".to_string()))), Some("a: 1".to_string()));
    assert_eq!(readable_defaults(Some(Err(AppError::Io("no such file".to_string())))), None);
}
