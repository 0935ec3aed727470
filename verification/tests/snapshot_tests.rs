use gh_config_cli::census::pick_managed;
use gh_config_cli::config::{Config, RepoSettings};
use gh_config_cli::documents::parse_yaml;
use gh_config_cli::error::AppError;
use gh_config_cli::github::GitHubClient;
use gh_config_cli::members::{PermissionDetails, TeamRepoResponse};
use gh_config_cli::node::Node;
use gh_config_cli::snapshot::{
    filter_settings, find_repo, find_team, find_user, is_assigned, select_webhook,
    webhook_target, MemberObservation, OrgObservation, RepoObservation, TeamObservation,
};
use gh_config_cli::webhooks::{WebhookConfigResponse, WebhookResponse};

fn config(yaml: &str) -> Config {
    Config::from_file_with_defaults(yaml, None).expect("config")
}

fn settings(yaml: &str) -> RepoSettings {
    match parse_yaml(yaml).expect("yaml") {
        Node::Mapping(entries) => RepoSettings { entries },
        other => panic!("no mapping: {:?}", other),
    }
}

fn hook(target: &str, events: &[&str]) -> WebhookResponse {
    WebhookResponse {
        id: Some(1),
        url: "api".to_string(),
        config: WebhookConfigResponse { url: target.to_string(), content_type: "json".to_string() },
        events: events.iter().map(|e| e.to_string()).collect(),
    }
}

fn seen_repo(
    name: &str,
    private: Option<bool>,
    settings_yaml: Option<&str>,
    hooks: Option<Vec<WebhookResponse>>,
) -> RepoObservation {
    RepoObservation {
        name: Some(name.to_string()),
        private,
        settings: settings_yaml.map(settings),
        hooks,
    }
}

fn team_repo(name: &str, pull: bool, push: bool, admin: bool) -> TeamRepoResponse {
    TeamRepoResponse { name: name.to_string(), permissions: PermissionDetails { pull, push, admin } }
}

fn texts(items: &[&str]) -> Vec<String> {
    items.iter().map(|s| s.to_string()).collect()
}

const LOCAL: &str = r#"
org: acme
default_webhook: {url: http://default.com, content_type: json, events: [push]}
repos:
  - name: r1
    settings: {allow_merge_commit: true, has_wiki: false}
    visibility: public
  - name: r2
    webhook: {url: http://own.com, content_type: json, events: [push]}
  - name: gone
teams:
  - {name: infra, members: [a]}
  - {name: ghosts, members: []}
  - {name: infra, members: [b]}
users:
  - {login: alice, role: admin}
  - {login: bob, role: member}
assignments:
  - {repo: r1, team: infra, permission: push}
  - {repo: r2, team: ghosts, permission: pull}
"#;

fn observed() -> OrgObservation {
    OrgObservation {
        repos: vec![
            seen_repo("other", Some(false), Some("allow_merge_commit: false"), None),
            seen_repo("r1", Some(true), None, None),
            seen_repo(
                "r1",
                Some(true),
                Some("allow_merge_commit: false\nallow_squash_merge: true\n"),
                Some(vec![hook("http://x.com", &["a"]), hook("http://default.com", &["push", "issues"])]),
            ),
            seen_repo("r2", None, Some("{}"), Some(vec![hook("http://default.com", &["push"])])),
            RepoObservation { name: None, private: None, settings: None, hooks: None },
        ],
        teams: Some(vec![
            TeamObservation {
                slug: Some("infra".to_string()),
                members: Some(texts(&["zoe", "adam"])),
                repos: Some(vec![
                    team_repo("r1", true, true, false),
                    team_repo("r2", true, false, false),
                    team_repo("r1", false, false, false),
                ]),
            },
            TeamObservation { slug: Some("others".to_string()), members: Some(vec![]), repos: None },
            TeamObservation { slug: Some("ghosts".to_string()), members: None, repos: None },
            TeamObservation { slug: None, members: Some(vec![]), repos: None },
        ]),
        members: Some(vec![
            MemberObservation { login: Some("bob".to_string()), role: Some("admin".to_string()) },
            MemberObservation { login: Some("carol".to_string()), role: Some("member".to_string()) },
            MemberObservation { login: Some("alice".to_string()), role: None },
            MemberObservation { login: None, role: Some("member".to_string()) },
        ]),
    }
}

#[test]
fn filtered_snapshot_holds_what_the_local_configuration_names() {
    let client = GitHubClient::new("t", "acme");
    let snapshot = client.generate_filtered_config_from_org(&config(LOCAL), &observed());
    assert_eq!(snapshot.org, "acme");
    assert!(snapshot.default_webhook.is_none());
    assert!(snapshot.default_branch_protections.is_empty());
    assert!(snapshot.extra.is_empty());

    let names: Vec<&str> = snapshot.repos.iter().map(|r| r.name.as_str()).collect();
    assert_eq!(names, vec!["r1", "r2"]);
    let r1 = &snapshot.repos[0];
    assert_eq!(r1.settings.len(), 2);
    assert_eq!(r1.settings.entries[0].0, "allow_merge_commit");
    assert_eq!(r1.settings.get("allow_merge_commit").unwrap().as_bool(), Some(false));
    assert!(r1.settings.get("has_wiki").unwrap().is_null());
    assert!(r1.settings.get("allow_squash_merge").is_none());
    assert_eq!(r1.visibility.as_deref(), Some("private"));
    let hook = r1.webhook.as_ref().expect("the default one was seen");
    assert_eq!(hook.url, "http://default.com");
    assert_eq!(hook.events, vec!["issues", "push"]);
    assert!(r1.branch_protections.is_empty());
    assert!(r1.extra.is_empty());
    let r2 = &snapshot.repos[1];
    assert!(r2.settings.is_empty());
    assert!(r2.visibility.is_none());
    assert!(r2.webhook.is_none());

    assert_eq!(snapshot.teams.len(), 1);
    assert_eq!(snapshot.teams[0].name, "infra");
    assert_eq!(snapshot.teams[0].members, vec!["adam", "zoe"]);

    assert_eq!(snapshot.users.len(), 1);
    assert_eq!(snapshot.users[0].login, "bob");
    assert_eq!(snapshot.users[0].role, "admin");

    assert_eq!(snapshot.assignments.len(), 1);
    assert_eq!(snapshot.assignments[0].repo, "r1");
    assert_eq!(snapshot.assignments[0].team, "infra");
    assert_eq!(snapshot.assignments[0].permission, "push");
}

#[test]
fn filtered_snapshot_of_nothing_is_empty() {
    let client = GitHubClient::new("t", "acme");
    let nothing = OrgObservation { repos: vec![], teams: None, members: None };
    let snapshot = client.generate_filtered_config_from_org(&config(LOCAL), &nothing);
    assert!(snapshot.repos.is_empty());
    assert!(snapshot.teams.is_empty());
    assert!(snapshot.users.is_empty());
    assert!(snapshot.assignments.is_empty());
}

#[test]
fn what_the_local_configuration_names_is_found() {
    let local = config(LOCAL);
    assert_eq!(find_repo(&local.repos, "r2"), Some(1));
    assert_eq!(find_repo(&local.repos, "other"), None);
    assert_eq!(find_team(&local.teams, "infra"), Some(0));
    assert_eq!(find_team(&local.teams, "others"), None);
    assert_eq!(find_user(&local.users, "bob"), Some(1));
    assert_eq!(find_user(&local.users, "carol"), None);
    assert!(is_assigned(&local.assignments, "infra", "r1"));
    assert!(!is_assigned(&local.assignments, "infra", "r2"));
    assert!(!is_assigned(&local.assignments, "r1", "infra"));
    assert_eq!(webhook_target(&local.repos[0], &local.default_webhook), Some("http://default.com"));
    assert_eq!(webhook_target(&local.repos[1], &local.default_webhook), Some("http://own.com"));
    assert_eq!(webhook_target(&local.repos[0], &None), None);
}

#[test]
fn settings_are_cut_down_to_the_local_keys() {
    let cut = filter_settings(&settings("b: 1\na: 2\nc: 3\n"), &settings("a: x\nb: y\nd: z\n"));
    assert_eq!(cut.len(), 3);
    assert_eq!(cut.entries[0].0, "b");
    assert_eq!(cut.get("b").unwrap().as_str(), Some("y"));
    assert_eq!(cut.get("a").unwrap().as_str(), Some("x"));
    assert!(cut.get("c").unwrap().is_null());
    assert!(cut.get("d").is_none());
}

#[test]
fn the_webhook_that_posts_to_the_target_is_selected() {
    let hooks = vec![hook("a", &["z", "y"]), hook("b", &["x"]), hook("a", &["w"])];
    let found = select_webhook(&hooks, "a").expect("found");
    assert_eq!(found.url, "a");
    assert_eq!(found.content_type, "json");
    assert_eq!(found.events, vec!["y", "z"]);
    assert!(select_webhook(&hooks, "c").is_none());
}

#[test]
fn full_snapshot_holds_all_that_was_seen() {
    let client = GitHubClient::new("t", "acme");
    let seen = OrgObservation {
        repos: vec![
            seen_repo("r2", Some(true), Some("allow_rebase_merge: true\nhas_wiki: true\nallow_merge_commit: false\n"), None),
            seen_repo("r1", None, None, Some(vec![hook("http://h", &["push", "issues"]), hook("http://i", &[])])),
        ],
        teams: Some(vec![
            TeamObservation {
                slug: Some("infra".to_string()),
                members: Some(texts(&["zoe", "adam"])),
                repos: Some(vec![
                    team_repo("r1", true, true, true),
                    team_repo("r2", false, false, false),
                    team_repo("r3", true, false, false),
                ]),
            },
            TeamObservation { slug: Some("idle".to_string()), members: None, repos: None },
        ]),
        members: Some(vec![
            MemberObservation { login: Some("zoe".to_string()), role: Some("admin".to_string()) },
            MemberObservation { login: Some("adam".to_string()), role: None },
        ]),
    };
    let config = client.generate_unfiltered_config_from_org(&seen).expect("config");
    assert_eq!(config.org, "acme");
    let r2 = &config.repos[0];
    assert_eq!(r2.name, "r2");
    assert_eq!(r2.visibility.as_deref(), Some("private"));
    let keys: Vec<&str> = r2.settings.entries.iter().map(|e| e.0.as_str()).collect();
    assert_eq!(keys, vec!["allow_merge_commit", "allow_rebase_merge"]);
    assert_eq!(r2.settings.get("allow_merge_commit").unwrap().as_bool(), Some(false));
    assert!(r2.webhook.is_none());
    let r1 = &config.repos[1];
    assert_eq!(r1.visibility.as_deref(), Some("public"));
    assert!(r1.settings.is_empty());
    let hook = r1.webhook.as_ref().expect("first webhook");
    assert_eq!(hook.url, "http://h");
    assert_eq!(hook.events, vec!["push", "issues"]);
    assert_eq!(config.default_webhook.as_ref().expect("first found").url, "http://h");
    assert_eq!(config.teams[0].members, vec!["adam", "zoe"]);
    assert!(config.teams[1].members.is_empty());
    assert_eq!(config.users[0].role, "admin");
    assert_eq!(config.users[1].login, "adam");
    assert_eq!(config.users[1].role, "member");
    let grants: Vec<(&str, &str, &str)> = config
        .assignments
        .iter()
        .map(|a| (a.team.as_str(), a.repo.as_str(), a.permission.as_str()))
        .collect();
    assert_eq!(grants, vec![("infra", "r1", "admin"), ("infra", "r3", "pull")]);
}

#[test]
fn full_snapshot_needs_the_names() {
    let client = GitHubClient::new("t", "acme");
    let nameless_repo = OrgObservation {
        repos: vec![RepoObservation { name: None, private: None, settings: None, hooks: None }],
        teams: Some(vec![TeamObservation { slug: None, members: None, repos: None }]),
        members: None,
    };
    match client.generate_unfiltered_config_from_org(&nameless_repo) {
        Err(AppError::GitHubApi(message)) => assert_eq!(message, "Missing repo name"),
        other => panic!("unexpected: {:?}", other),
    }
    let nameless_team = OrgObservation {
        repos: vec![],
        teams: Some(vec![TeamObservation { slug: None, members: None, repos: None }]),
        members: Some(vec![MemberObservation { login: None, role: None }]),
    };
    match client.generate_unfiltered_config_from_org(&nameless_team) {
        Err(AppError::GitHubApi(message)) => assert_eq!(message, "Missing team slug"),
        other => panic!("unexpected: {:?}", other),
    }
    let nameless_member = OrgObservation {
        repos: vec![],
        teams: None,
        members: Some(vec![MemberObservation { login: None, role: None }]),
    };
    match client.generate_unfiltered_config_from_org(&nameless_member) {
        Err(AppError::GitHubApi(message)) => assert_eq!(message, "Missing member login"),
        other => panic!("unexpected: {:?}", other),
    }
    let nothing = OrgObservation { repos: vec![], teams: None, members: None };
    let empty = client.generate_unfiltered_config_from_org(&nothing).expect("config");
    assert!(empty.repos.is_empty() && empty.default_webhook.is_none());
}

#[test]
fn managed_settings_are_picked_in_their_order() {
    let picked = pick_managed(&settings("allow_squash_merge: 1\nx: 2\nallow_merge_commit: 3\n"));
    let keys: Vec<&str> = picked.entries.iter().map(|e| e.0.as_str()).collect();
    assert_eq!(keys, vec!["allow_merge_commit", "allow_squash_merge"]);
    assert_eq!(picked.get("allow_merge_commit").unwrap().as_i64(), Some(3));
}
