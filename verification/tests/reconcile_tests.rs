use gh_config_cli::api_mapping::{
    get_repo_settings_mapping, ApiFieldMapping, HttpMethod, MappingTable, ResourceType,
};
use gh_config_cli::config::{Assignment, Config, Repo, RepoSettings, Team, User, WebhookConfig};
use gh_config_cli::documents::{json_text, parse_json, parse_yaml};
use gh_config_cli::error::AppError;
use gh_config_cli::github::{resolve_endpoint, Action, ApiCall, GitHubClient};
use gh_config_cli::members::{permission_level, PermissionDetails, TeamResponse};
use gh_config_cli::node::Node;
use gh_config_cli::sync::Step;
use gh_config_cli::webhooks::{events_match, WebhookConfigResponse, WebhookResponse};

fn settings(yaml: &str) -> RepoSettings {
    match parse_yaml(yaml).expect("yaml") {
        Node::Mapping(entries) => RepoSettings { entries },
        other => panic!("no mapping: {:?}", other),
    }
}

fn repo(name: &str, settings_yaml: &str) -> Repo {
    Repo {
        name: name.to_string(),
        settings: settings(settings_yaml),
        visibility: None,
        webhook: None,
        branch_protections: vec![],
        extra: RepoSettings::new(),
    }
}

fn webhook(url: &str, content_type: &str, events: &[&str]) -> WebhookConfig {
    WebhookConfig {
        url: url.to_string(),
        content_type: content_type.to_string(),
        events: events.iter().map(|e| e.to_string()).collect(),
    }
}

fn hook(id: Option<i64>, target: &str, content_type: &str, events: &[&str]) -> WebhookResponse {
    WebhookResponse {
        id,
        url: "http://api.github.com/hook".to_string(),
        config: WebhookConfigResponse {
            url: target.to_string(),
            content_type: content_type.to_string(),
        },
        events: events.iter().map(|e| e.to_string()).collect(),
    }
}

fn mapping(key: &str, endpoint: &str, method: HttpMethod, json_path: &str) -> ApiFieldMapping {
    ApiFieldMapping {
        resource_type: ResourceType::Repo,
        config_key: key.to_string(),
        endpoint: endpoint.to_string(),
        method,
        json_path: json_path.to_string(),
    }
}

fn body_is(call: &ApiCall, json: &str) -> bool {
    let expected = parse_json(json).expect("json");
    match &call.body {
        Some(body) => body.same_as(&expected),
        None => false,
    }
}

fn sent(action: &Action) -> &ApiCall {
    match action {
        Action::Send(call) => call,
        other => panic!("not sent: {:?}", other),
    }
}

fn attempted(action: &Action) -> &ApiCall {
    match action {
        Action::Attempt(call) => call,
        other => panic!("not attempted: {:?}", other),
    }
}

fn announced(action: &Action) -> &ApiCall {
    match action {
        Action::Announce(call) => call,
        other => panic!("not announced: {:?}", other),
    }
}

#[test]
fn test_github_client_new() {
    let client = GitHubClient::new("dummy_token", "dummy_org");
    assert_eq!(client.token, "dummy_token");
    assert_eq!(client.org, "dummy_org");
}

#[test]
fn settings_that_share_an_endpoint_share_one_call() {
    let client = GitHubClient::new("t", "acme");
    let desired = repo("r1", "allow_merge_commit: true\nallow_squash_merge: false\nallow_rebase_merge: true\n");
    let observed = settings("allow_merge_commit: false\nallow_squash_merge: true\nallow_rebase_merge: true\n");
    let plan = client.update_repo_settings(&desired, &observed, &get_repo_settings_mapping(), false);
    assert_eq!(plan.len(), 1);
    let call = sent(&plan[0]);
    assert_eq!(call.method, HttpMethod::Patch);
    assert_eq!(call.url, "https://api.github.com/repos/acme/r1");
    assert!(body_is(call, r#"{"allow_merge_commit": true, "allow_squash_merge": false}"#));
    match &call.body {
        Some(Node::Mapping(fields)) => {
            assert_eq!(fields.len(), 2);
            assert_eq!(fields[0].0, "allow_merge_commit");
            assert_eq!(fields[1].0, "allow_squash_merge");
        }
        other => panic!("no mapping: {:?}", other),
    }
}

#[test]
fn settings_that_match_or_have_no_mapping_are_not_written() {
    let client = GitHubClient::new("t", "acme");
    let desired = repo("r1", "allow_merge_commit: true\nunknown_setting: 1\n");
    let observed = settings("allow_merge_commit: true\n");
    let plan = client.update_repo_settings(&desired, &observed, &get_repo_settings_mapping(), false);
    assert!(plan.is_empty());
}

#[test]
fn a_setting_that_was_not_observed_is_written() {
    let client = GitHubClient::new("t", "acme");
    let desired = repo("r1", "allow_rebase_merge: false\n");
    let observed = RepoSettings::new();
    let plan = client.update_repo_settings(&desired, &observed, &get_repo_settings_mapping(), false);
    assert_eq!(plan.len(), 1);
    assert!(body_is(sent(&plan[0]), r#"{"allow_rebase_merge": false}"#));
}

#[test]
fn settings_are_batched_by_address_and_method() {
    let client = GitHubClient::new("t", "acme");
    let mut table = MappingTable::new();
    table.insert(mapping("a", "/repos/{owner}/{repo}", HttpMethod::Patch, "a"));
    table.insert(mapping("b", "/repos/{org}/{repo}/topics", HttpMethod::Put, "names"));
    table.insert(mapping("c", "/repos/{org}/{repo}", HttpMethod::Patch, "c_field"));
    table.insert(mapping("d", "/repos/{org}/{repo}", HttpMethod::Post, "d"));
    table.insert(mapping("e", "/repos/{org}/{repo}", HttpMethod::Patch, "a"));
    let desired = repo("r", "a: 1\nb: [x]\nc: text\nd: ~\ne: 2\n");
    let observed = settings("a: 0\nd: 5\n");
    let plan = client.update_repo_settings(&desired, &observed, &table, false);
    assert_eq!(plan.len(), 3);
    let first = sent(&plan[0]);
    assert_eq!(first.method, HttpMethod::Patch);
    assert_eq!(first.url, "https://api.github.com/repos/acme/r");
    // `e` is written under the name `a`, after `a`: the later value stays.
    assert!(body_is(first, r#"{"a": 2, "c_field": "text"}"#));
    let second = sent(&plan[1]);
    assert_eq!(second.method, HttpMethod::Put);
    assert_eq!(second.url, "https://api.github.com/repos/acme/r/topics");
    assert!(body_is(second, r#"{"names": ["x"]}"#));
    let third = sent(&plan[2]);
    assert_eq!(third.method, HttpMethod::Post);
    assert_eq!(third.url, "https://api.github.com/repos/acme/r");
    assert!(body_is(third, r#"{"d": null}"#));
}

#[test]
fn dry_run_reports_the_patch_and_sends_nothing() {
    let mut client = GitHubClient::new("t", "elsewhere");
    let local = Config::from_file_with_defaults(
        "org: acme\nrepos:\n  - name: r1\n    settings:\n      allow_merge_commit: true\ndefault_webhook:\n  url: http://h\n  content_type: json\n  events: [push]\n",
        None,
    )
    .expect("config");
    let plan = client.sync(local).expect("plan");
    assert_eq!(client.org, "acme");
    assert_eq!(plan.steps, vec![Step::Settings(0), Step::Webhook(0)]);
    let observed = settings("allow_merge_commit: false\n");
    let actions = client.update_repo_settings(
        &plan.config.repos[0],
        &observed,
        &get_repo_settings_mapping(),
        true,
    );
    assert_eq!(actions.len(), 1);
    let call = announced(&actions[0]);
    assert_eq!(call.method, HttpMethod::Patch);
    assert_eq!(call.url, "https://api.github.com/repos/acme/r1");
    assert!(body_is(call, r#"{"allow_merge_commit": true}"#));
    assert_eq!(json_text(call.body.as_ref().unwrap()).unwrap(), r#"{"allow_merge_commit":true}"#);
    assert!(actions.iter().all(|a| matches!(a, Action::Announce(_))));
    // Whatever the outcome that is reported for an announcement, the run goes on.
    assert!(actions[0].settle(Err(AppError::Transport("down".to_string()))).is_ok());
}

#[test]
fn endpoint_placeholders_are_resolved() {
    assert_eq!(resolve_endpoint("/repos/{org}/{repo}", "acme", "r1"), "/repos/acme/r1");
    assert_eq!(resolve_endpoint("/repos/{owner}/{repo}/x/{repo}", "acme", "r1"), "/repos/acme/r1/x/r1");
    assert_eq!(resolve_endpoint("/plain", "acme", "r1"), "/plain");
    assert_eq!(resolve_endpoint("/{org}{owner}", "{repo}", "r"), "/rr");
}

#[test]
fn webhook_is_created_where_none_posts_to_the_address() {
    let client = GitHubClient::new("t", "acme");
    let desired = webhook("http://example.com", "json", &["push", "pull_request"]);
    let hooks = vec![hook(Some(1), "http://other.com", "json", &["push"])];
    let plan = client.manage_webhooks("r1", &desired, &hooks, false).expect("plan");
    assert_eq!(plan.len(), 1);
    let call = sent(&plan[0]);
    assert_eq!(call.method, HttpMethod::Post);
    assert_eq!(call.url, "https://api.github.com/repos/acme/r1/hooks");
    assert!(body_is(
        call,
        r#"{"name": "web", "active": true, "events": ["push", "pull_request"],
            "config": {"url": "http://example.com", "content_type": "json", "insecure_ssl": "0"}}"#
    ));
    let none: Vec<WebhookResponse> = vec![];
    let plan = client.manage_webhooks("r1", &desired, &none, true).expect("plan");
    assert_eq!(announced(&plan[0]).method, HttpMethod::Post);
}

#[test]
fn webhook_that_matches_is_left_alone() {
    let client = GitHubClient::new("t", "acme");
    let desired = webhook("http://example.com", "json", &["push", "pull_request"]);
    let hooks = vec![
        hook(Some(1), "http://other.com", "form", &[]),
        hook(Some(2), "http://example.com", "json", &["pull_request", "push", "push"]),
    ];
    let plan = client.manage_webhooks("r1", &desired, &hooks, false).expect("plan");
    assert!(plan.is_empty());
}

#[test]
fn webhook_with_other_events_is_updated_by_its_id() {
    let client = GitHubClient::new("t", "acme");
    let desired = webhook("http://example.com", "json", &["push", "pull_request"]);
    let hooks = vec![hook(Some(123), "http://example.com", "json", &["push"])];
    let plan = client.manage_webhooks("r1", &desired, &hooks, false).expect("plan");
    assert_eq!(plan.len(), 1);
    let call = sent(&plan[0]);
    assert_eq!(call.method, HttpMethod::Patch);
    assert_eq!(call.url, "https://api.github.com/repos/acme/r1/hooks/123");
    assert!(body_is(
        call,
        r#"{"events": ["push", "pull_request"],
            "config": {"url": "http://example.com", "content_type": "json", "insecure_ssl": "0"}}"#
    ));
}

#[test]
fn webhook_with_another_content_type_is_updated() {
    let client = GitHubClient::new("t", "acme");
    let desired = webhook("http://example.com", "json", &["push"]);
    let hooks = vec![hook(Some(-7), "http://example.com", "form", &["push"])];
    let plan = client.manage_webhooks("r1", &desired, &hooks, true).expect("plan");
    assert_eq!(announced(&plan[0]).url, "https://api.github.com/repos/acme/r1/hooks/-7");
}

#[test]
fn webhook_to_update_without_an_id_is_an_error() {
    let client = GitHubClient::new("t", "acme");
    let desired = webhook("http://example.com", "json", &["push"]);
    let hooks = vec![hook(None, "http://example.com", "json", &[])];
    match client.manage_webhooks("r1", &desired, &hooks, false) {
        Err(AppError::GitHubApi(message)) => assert_eq!(message, "Webhook to update has no id"),
        other => panic!("unexpected: {:?}", other),
    }
}

#[test]
fn webhook_to_update_without_an_id_is_reported_in_a_dry_run() {
    let client = GitHubClient::new("t", "acme");
    let desired = webhook("http://example.com", "json", &["push"]);
    let hooks = vec![hook(None, "http://example.com", "form", &["push"])];
    let plan = client.manage_webhooks("r1", &desired, &hooks, true).expect("plan");
    assert_eq!(plan.len(), 1);
    let call = announced(&plan[0]);
    assert_eq!(call.method, HttpMethod::Patch);
    assert_eq!(call.url, "https://api.github.com/repos/acme/r1/hooks");
    assert!(body_is(
        call,
        r#"{"events": ["push"],
            "config": {"url": "http://example.com", "content_type": "json", "insecure_ssl": "0"}}"#
    ));
}

#[test]
fn dry_run_of_the_webhook_reconciler_never_fails_and_sends_nothing() {
    let client = GitHubClient::new("t", "acme");
    let desired = webhook("http://example.com", "json", &["push"]);
    let cases: Vec<Vec<WebhookResponse>> = vec![
        vec![],
        vec![hook(Some(1), "http://example.com", "json", &["push"])],
        vec![hook(Some(1), "http://example.com", "json", &["issues"])],
        vec![hook(None, "http://example.com", "json", &["issues"])],
        vec![hook(None, "http://other.com", "json", &["issues"])],
    ];
    for hooks in &cases {
        let plan = client.manage_webhooks("r1", &desired, hooks, true).expect("plan");
        assert!(plan.iter().all(|a| matches!(a, Action::Announce(_))));
    }
}

#[test]
fn events_are_compared_as_sets() {
    let list = |items: &[&str]| items.iter().map(|e| e.to_string()).collect::<Vec<String>>();
    assert!(events_match(&list(&["a", "b"]), &list(&["b", "a", "a"])));
    assert!(events_match(&list(&[]), &list(&[])));
    assert!(!events_match(&list(&["a"]), &list(&["a", "b"])));
    assert!(!events_match(&list(&["a", "b"]), &list(&["a"])));
}

#[test]
fn team_that_does_not_exist_is_created_and_members_are_added() {
    let client = GitHubClient::new("t", "acme");
    let team = Team {
        name: "infra".to_string(),
        members: vec!["alice".to_string(), "bob".to_string()],
    };
    let plan = client.create_team(&team, false, false);
    assert_eq!(plan.len(), 3);
    let create = sent(&plan[0]);
    assert_eq!(create.method, HttpMethod::Post);
    assert_eq!(create.url, "https://api.github.com/orgs/acme/teams");
    assert!(body_is(create, r#"{"name": "infra", "privacy": "closed"}"#));
    let first = attempted(&plan[1]);
    assert_eq!(first.method, HttpMethod::Put);
    assert_eq!(first.url, "https://api.github.com/orgs/acme/teams/infra/memberships/alice");
    assert!(first.body.is_none());
    let second = attempted(&plan[2]);
    assert_eq!(second.url, "https://api.github.com/orgs/acme/teams/infra/memberships/bob");
    // The second member cannot be added: the run goes on.
    assert!(plan[0].settle(Ok(())).is_ok());
    assert!(plan[1].settle(Ok(())).is_ok());
    assert!(plan[2].settle(Err(AppError::GitHubApi("422".to_string()))).is_ok());
    // The team cannot be created: the run ends.
    match plan[0].settle(Err(AppError::GitHubApi("500".to_string()))) {
        Err(AppError::GitHubApi(body)) => assert_eq!(body, "500"),
        other => panic!("unexpected: {:?}", other),
    }
}

#[test]
fn team_that_exists_gets_its_members_confirmed() {
    let client = GitHubClient::new("t", "acme");
    let team = Team { name: "infra".to_string(), members: vec!["alice".to_string()] };
    let plan = client.create_team(&team, true, false);
    assert_eq!(plan.len(), 1);
    assert_eq!(
        attempted(&plan[0]).url,
        "https://api.github.com/orgs/acme/teams/infra/memberships/alice"
    );
    let dry = client.create_team(&team, false, true);
    assert_eq!(dry.len(), 2);
    assert!(dry.iter().all(|a| matches!(a, Action::Announce(_))));
}

#[test]
fn team_answers_are_read() {
    let client = GitHubClient::new("t", "acme");
    let found = client
        .get_team("infra", Ok(TeamResponse { name: "infra".to_string() }))
        .expect("answer");
    assert_eq!(found.expect("team").name, "infra");
    let other =
        client.get_team("infra", Ok(TeamResponse { name: "Infra".to_string() })).expect("answer");
    assert!(other.is_none());
    let missing = client
        .get_team("infra", Err(AppError::GitHubApi("{\"status\": \"404\"}".to_string())))
        .expect("answer");
    assert!(missing.is_none());
    assert!(matches!(
        client.get_team("infra", Err(AppError::GitHubApi("500".to_string()))),
        Err(AppError::GitHubApi(_))
    ));
    assert!(matches!(
        client.get_team("infra", Err(AppError::Transport("404".to_string()))),
        Err(AppError::Transport(_))
    ));
}

#[test]
fn user_role_is_set_where_it_is_missing_or_differs() {
    let client = GitHubClient::new("t", "acme");
    let user = User { login: "alice".to_string(), role: "admin".to_string() };
    let add = client.add_user_to_org(&user, &None, false);
    assert_eq!(add.len(), 1);
    let call = sent(&add[0]);
    assert_eq!(call.method, HttpMethod::Put);
    assert_eq!(call.url, "https://api.github.com/orgs/acme/memberships/alice");
    assert!(body_is(call, r#"{"role": "admin"}"#));
    let update = client.add_user_to_org(&user, &Some("member".to_string()), true);
    assert_eq!(update.len(), 1);
    assert!(body_is(announced(&update[0]), r#"{"role": "admin"}"#));
    assert!(client.add_user_to_org(&user, &Some("admin".to_string()), false).is_empty());
    assert_eq!(
        client.get_user_membership(Ok("admin".to_string())).unwrap(),
        Some("admin".to_string())
    );
    assert_eq!(
        client.get_user_membership(Err(AppError::GitHubApi("404 Not Found".to_string()))).unwrap(),
        None
    );
    assert!(client.get_user_membership(Err(AppError::GitHubApi("403".to_string()))).is_err());
}

#[test]
fn permission_is_set_where_it_is_missing_or_differs() {
    let client = GitHubClient::new("t", "acme");
    let assignment = Assignment {
        repo: "r1".to_string(),
        team: "infra".to_string(),
        permission: "push".to_string(),
    };
    let set = client.assign_team_to_repo(&assignment, &None, false);
    assert_eq!(set.len(), 1);
    let call = sent(&set[0]);
    assert_eq!(call.method, HttpMethod::Put);
    assert_eq!(call.url, "https://api.github.com/orgs/acme/teams/infra/repos/acme/r1");
    assert!(body_is(call, r#"{"permission": "push"}"#));
    assert_eq!(client.assign_team_to_repo(&assignment, &Some("pull".to_string()), true).len(), 1);
    assert!(client.assign_team_to_repo(&assignment, &Some("push".to_string()), false).is_empty());
}

#[test]
fn permission_answers_are_read() {
    let client = GitHubClient::new("t", "acme");
    let details = |pull, push, admin| PermissionDetails { pull, push, admin };
    assert_eq!(permission_level(&details(true, true, true)), "admin");
    assert_eq!(permission_level(&details(true, true, false)), "push");
    assert_eq!(permission_level(&details(true, false, false)), "pull");
    assert_eq!(permission_level(&details(false, false, false)), "none");
    assert_eq!(permission_level(&details(false, false, true)), "admin");
    assert_eq!(
        client.get_team_repo_permission(Ok(Some(details(true, false, false)))).unwrap(),
        Some("pull".to_string())
    );
    assert_eq!(client.get_team_repo_permission(Ok(None)).unwrap(), Some("push".to_string()));
    assert_eq!(
        client.get_team_repo_permission(Err(AppError::GitHubApi("404".to_string()))).unwrap(),
        None
    );
    assert!(client.get_team_repo_permission(Err(AppError::GitHubApi("boom".to_string()))).is_err());
}

#[test]
fn sync_fills_in_the_default_webhook_and_orders_the_work() {
    let mut client = GitHubClient::new("tok", "old");
    let config = Config::from_file_with_defaults(
        "org: acme\nrepos:\n  - name: a\n  - name: b\n    webhook: {url: own, content_type: form, events: []}\nteams:\n  - name: t\n    members: []\nusers:\n  - {login: u, role: member}\n  - {login: v, role: admin}\nassignments:\n  - {repo: a, team: t, permission: pull}\ndefault_webhook: {url: d, content_type: json, events: [push]}\n",
        None,
    )
    .expect("config");
    let plan = client.sync(config).expect("plan");
    assert_eq!(client.org, "acme");
    assert_eq!(client.token, "tok");
    assert_eq!(
        plan.steps,
        vec![
            Step::Settings(0),
            Step::Webhook(0),
            Step::Settings(1),
            Step::Webhook(1),
            Step::Team(0),
            Step::User(0),
            Step::User(1),
            Step::Assignment(0),
        ]
    );
    assert_eq!(plan.config.repos[0].webhook.as_ref().unwrap().url, "d");
    assert_eq!(plan.config.repos[0].webhook.as_ref().unwrap().events, vec!["push"]);
    assert_eq!(plan.config.repos[1].webhook.as_ref().unwrap().url, "own");
    assert_eq!(plan.config.default_webhook.as_ref().unwrap().url, "d");
    assert_eq!(plan.config.org, "acme");
    assert_eq!(plan.config.users.len(), 2);
}

#[test]
fn sync_refuses_a_repository_without_any_webhook() {
    let mut client = GitHubClient::new("tok", "old");
    let config =
        Config::from_file_with_defaults("org: acme\nrepos:\n  - name: ' '\n", None).expect("config");
    match client.sync(config) {
        Err(AppError::Validation(message)) => assert_eq!(
            message,
            "Sync requires either a 'default_webhook' or explicit 'webhook' definition for every repo in the config."
        ),
        other => panic!("unexpected: {:?}", other.map(|p| p.steps)),
    }
}

#[test]
fn sync_refuses_a_repository_with_a_blank_name() {
    let mut client = GitHubClient::new("tok", "old");
    let config = Config::from_file_with_defaults(
        "org: acme\nrepos:\n  - name: a\n  - name: \" \\t\"\ndefault_webhook: {url: d, content_type: json, events: []}\n",
        None,
    )
    .expect("config");
    match client.sync(config) {
        Err(AppError::Validation(message)) => {
            assert_eq!(message, "Invalid empty repo name found in config.")
        }
        other => panic!("unexpected: {:?}", other.map(|p| p.steps)),
    }
}

#[test]
fn sync_of_an_empty_configuration_has_nothing_to_do() {
    let mut client = GitHubClient::new("tok", "old");
    let config = Config::from_file_with_defaults("org: acme\n", None).expect("config");
    let plan = client.sync(config).expect("plan");
    assert!(plan.steps.is_empty());
}
