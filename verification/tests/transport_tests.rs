use gh_config_cli::api_mapping::HttpMethod;
use gh_config_cli::documents::parse_json;
use gh_config_cli::error::AppError;
use gh_config_cli::github::{ApiCall, GitHubClient};
use gh_config_cli::members::PermissionDetails;
use gh_config_cli::responses::{list_logins, node_bool, node_text};
use gh_config_cli::transport::{require_body, settle_answer, Request, Verb};
use gh_config_cli::webhooks::WebhookResponse;

fn api_error(r: Result<Request, AppError>) -> String {
    match r {
        Err(AppError::GitHubApi(message)) => message,
        other => panic!("unexpected: {:?}", other),
    }
}

#[test]
fn test_get_webhooks_parses_response() {
    let client = GitHubClient::new("dummy_token", "dummy_org");
    assert_eq!(
        client.hooks_address("dummy_repo"),
        "https://api.github.com/repos/dummy_org/dummy_repo/hooks"
    );
    let request = client.get(&client.hooks_address("dummy_repo")).expect("HTTP GET failed");
    assert_eq!(request.method, Verb::Get);
    let text = settle_answer(
        200,
        r#"
[
  {
    "id": 123,
    "url": "http://api.github.com/hook/123",
    "config": {
      "url": "http://example.com",
      "content_type": "json"
    },
    "events": ["push", "pull_request"]
  }
]
"#
        .to_string(),
    )
    .expect("read response text");
    let hooks: Vec<WebhookResponse> = client.get_webhooks(&text).expect("parse JSON");

    assert_eq!(hooks.len(), 1);
    let hook = &hooks[0];
    assert_eq!(hook.id, Some(123));
    assert_eq!(hook.url, "http://api.github.com/hook/123");
    assert_eq!(hook.config.url, "http://example.com");
    assert_eq!(hook.config.content_type, "json");
    assert_eq!(hook.events, vec!["push", "pull_request"]);
}

#[test]
fn calls_carry_the_token_and_the_standard_headers() {
    let client = GitHubClient::new("secret", "acme");
    let request = client.get("https://api.github.com/x").expect("request");
    assert_eq!(request.method, Verb::Get);
    assert_eq!(request.url, "https://api.github.com/x");
    assert_eq!(request.authorization, "Bearer secret");
    assert_eq!(request.accept, "application/vnd.github+json");
    assert_eq!(request.user_agent, "gh-config");
    assert!(request.body.is_none());
    let body = parse_json(r#"{"a": [1, "x"]}"#).unwrap();
    let patch = client.send_patch("u", &body).expect("request");
    assert_eq!(patch.method, Verb::Patch);
    assert_eq!(patch.body.as_deref(), Some(r#"{"a":[1,"x"]}"#));
    assert_eq!(client.send_post("u", &body).unwrap().method, Verb::Post);
    let put = client.send_put("u", &None).expect("request");
    assert_eq!(put.method, Verb::Put);
    assert!(put.body.is_none());
    assert_eq!(client.send_put("u", &Some(body)).unwrap().body.as_deref(), Some(r#"{"a":[1,"x"]}"#));
    assert_eq!(Verb::Get.as_str(), "GET");
    assert_eq!(Verb::Patch.as_str(), "PATCH");
    assert_eq!(Verb::Put.as_str(), "PUT");
    assert_eq!(Verb::Post.as_str(), "POST");
}

#[test]
fn planned_calls_become_requests_by_their_method() {
    let client = GitHubClient::new("secret", "acme");
    for (method, verb) in [
        (HttpMethod::Patch, Verb::Patch),
        (HttpMethod::Put, Verb::Put),
        (HttpMethod::Post, Verb::Post),
    ] {
        let with_body = ApiCall {
            method,
            url: "https://api.github.com/x".to_string(),
            body: Some(parse_json("{\"k\": true}").unwrap()),
        };
        let request = client.request_for(&with_body).expect("request");
        assert_eq!(request.method, verb);
        assert_eq!(request.body.as_deref(), Some("{\"k\":true}"));
        let without = ApiCall { method, url: "https://api.github.com/x".to_string(), body: None };
        let request = client.request_for(&without).expect("request");
        assert_eq!(request.method, verb);
        assert!(request.body.is_none());
    }
}

#[test]
fn calls_are_refused_before_they_are_sent() {
    let client = GitHubClient::new("secret", "acme");
    assert_eq!(api_error(client.get("  ")), "Internal error: Attempted GET with empty URL");
    assert_eq!(
        api_error(client.send_patch("", &parse_json("{}").unwrap())),
        "Internal error: Attempted PATCH with empty URL"
    );
    assert_eq!(api_error(client.send_put("\t", &None)), "Internal error: Attempted PUT with empty URL");
    let no_token = GitHubClient::new(" \n", "acme");
    assert_eq!(api_error(no_token.get("u")), "GitHub token is empty");
    assert_eq!(api_error(no_token.get("")), "Internal error: Attempted GET with empty URL");
    for token in ["a\nb", "a\rb", "ab\n"] {
        let broken = GitHubClient::new(token, "acme");
        assert_eq!(
            api_error(broken.send_post("u", &parse_json("{}").unwrap())),
            "Invalid characters in token for Authorization header"
        );
    }
}

#[test]
fn answers_succeed_by_their_status() {
    for status in [200u16, 201, 204, 299] {
        assert_eq!(settle_answer(status, "body".to_string()).unwrap(), "body");
    }
    for status in [0u16, 199, 300, 301, 404, 500, u16::MAX] {
        match settle_answer(status, "body".to_string()) {
            Err(AppError::GitHubApi(body)) => assert_eq!(body, "body"),
            other => panic!("unexpected: {:?}", other),
        }
    }
    assert_eq!(require_body("x".to_string()).unwrap(), "x");
    match require_body(String::new()) {
        Err(AppError::GitHubApi(message)) => assert_eq!(message, "Empty response body"),
        other => panic!("unexpected: {:?}", other),
    }
}

#[test]
fn repository_answers_are_read_as_settings() {
    let client = GitHubClient::new("t", "acme");
    let settings = client
        .get_repo_settings("r1", r#"{"name": "r1", "allow_merge_commit": false, "size": 3, "owner": {"login": "acme"}}"#)
        .expect("settings");
    assert_eq!(settings.len(), 4);
    assert_eq!(settings.get("allow_merge_commit").unwrap().as_bool(), Some(false));
    assert_eq!(settings.get("size").unwrap().as_i64(), Some(3));
    assert_eq!(settings.get("owner").unwrap().get("login").unwrap().as_str(), Some("acme"));
    assert!(client.get_repo_settings("r1", "[1, 2]").expect("settings").is_empty());
    match client.get_repo_settings("r1", "") {
        Err(AppError::GitHubApi(message)) => assert_eq!(message, "Empty response body"),
        other => panic!("unexpected: {:?}", other),
    }
    match client.get_repo_settings("r1", "{") {
        Err(AppError::GitHubApi(message)) => assert!(
            message.starts_with("Failed to parse response from https://api.github.com/repos/acme/r1: "),
            "{}",
            message
        ),
        other => panic!("unexpected: {:?}", other),
    }
    assert_eq!(GitHubClient::get_repo_visibility(true), "private");
    assert_eq!(GitHubClient::get_repo_visibility(false), "public");
}

#[test]
fn addresses_of_the_api() {
    let client = GitHubClient::new("t", "acme");
    assert_eq!(client.repo_address("r"), "https://api.github.com/repos/acme/r");
    assert_eq!(client.hook_address("r", 42), "https://api.github.com/repos/acme/r/hooks/42");
    assert_eq!(client.teams_address(), "https://api.github.com/orgs/acme/teams");
    assert_eq!(client.team_address("t"), "https://api.github.com/orgs/acme/teams/t");
    assert_eq!(
        client.team_membership_address("t", "u"),
        "https://api.github.com/orgs/acme/teams/t/memberships/u"
    );
    assert_eq!(client.membership_address("u"), "https://api.github.com/orgs/acme/memberships/u");
    assert_eq!(
        client.team_repo_address("t", "r"),
        "https://api.github.com/orgs/acme/teams/t/repos/acme/r"
    );
    assert_eq!(
        client.team_repos_address("t"),
        "https://api.github.com/orgs/acme/teams/t/repos?per_page=100"
    );
    assert_eq!(
        client.team_members_address("t"),
        "https://api.github.com/orgs/acme/teams/t/members?per_page=100"
    );
    assert_eq!(client.org_repos_address(), "https://api.github.com/orgs/acme/repos?per_page=100");
    assert_eq!(client.org_teams_address(), "https://api.github.com/orgs/acme/teams?per_page=100");
    assert_eq!(client.org_members_address(), "https://api.github.com/orgs/acme/members?per_page=100");
}

#[test]
fn answers_are_read_into_what_they_report() {
    let team = GitHubClient::read_team(r#"{"name": "infra", "id": 5}"#).expect("team");
    assert_eq!(team.name, "infra");
    assert_eq!(GitHubClient::read_membership(r#"{"role": "admin"}"#).unwrap(), "admin");
    let repos = GitHubClient::read_team_repos(
        r#"[{"name": "r1", "permissions": {"pull": true, "push": false, "admin": false, "triage": true}}]"#,
    )
    .expect("repos");
    assert_eq!(repos.len(), 1);
    assert_eq!(repos[0].name, "r1");
    assert_eq!(repos[0].permissions, PermissionDetails { pull: true, push: false, admin: false });
    assert_eq!(
        GitHubClient::read_team_repo_permission(
            r#"{"name": "r1", "permissions": {"pull": true, "push": true, "admin": false}}"#
        )
        .unwrap(),
        Some(PermissionDetails { pull: true, push: true, admin: false })
    );
    assert_eq!(GitHubClient::read_team_repo_permission("").unwrap(), None);
    let listed = GitHubClient::read_repo_list(r#"[{"name": "a", "private": true}, {"name": 5}, 7]"#)
        .expect("list");
    assert_eq!(listed.len(), 3);
    assert_eq!(listed[0].name.as_deref(), Some("a"));
    assert_eq!(listed[0].private, Some(true));
    assert!(listed[0].settings.is_none() && listed[0].hooks.is_none());
    assert!(listed[1].name.is_none() && listed[1].private.is_none());
    assert!(listed[2].name.is_none());
    let teams = GitHubClient::read_team_list(r#"[{"slug": "infra", "name": "Infra"}, {}]"#).unwrap();
    assert_eq!(teams[0].slug.as_deref(), Some("infra"));
    assert!(teams[1].slug.is_none());
    let members = GitHubClient::read_member_list(r#"[{"login": "zoe"}, {"id": 1}]"#).unwrap();
    assert_eq!(members[0].login.as_deref(), Some("zoe"));
    assert!(members[0].role.is_none());
    assert!(members[1].login.is_none());
    assert_eq!(
        GitHubClient::read_login_list(r#"[{"login": "zoe"}, {"id": 1}, {"login": "adam"}]"#).unwrap(),
        vec!["zoe", "adam"]
    );
    let node = parse_json(r#"{"a": "x", "b": true}"#).unwrap();
    assert_eq!(node_text(&node, "a").as_deref(), Some("x"));
    assert_eq!(node_text(&node, "b"), None);
    assert_eq!(node_bool(&node, "b"), Some(true));
    assert_eq!(node_bool(&node, "c"), None);
    assert!(list_logins(&node).is_none());
}

#[test]
fn answers_of_another_shape_are_errors() {
    let message = |r: Result<(), AppError>| match r {
        Err(AppError::GitHubApi(message)) => message,
        other => panic!("unexpected: {:?}", other),
    };
    assert_eq!(
        message(GitHubClient::new("t", "acme").get_webhooks(r#"{"id": 1}"#).map(|_| ())),
        "Failed to parse webhooks: unexpected shape"
    );
    for body in [
        r#"[{"url": "u", "config": {"url": "t", "content_type": "json"}, "events": [1]}]"#,
        r#"[{"url": "u", "config": {"url": "t"}, "events": []}]"#,
        r#"[{"url": "u", "config": {"url": "t", "content_type": "json"}}]"#,
        r#"[{"id": "x", "url": "u", "config": {"url": "t", "content_type": "json"}, "events": []}]"#,
        r#"[{"id": 1.5, "url": "u", "config": {"url": "t", "content_type": "json"}, "events": []}]"#,
        r#"[{"config": {"url": "t", "content_type": "json"}, "events": []}]"#,
    ] {
        assert_eq!(
            message(GitHubClient::new("t", "acme").get_webhooks(body).map(|_| ())),
            "Failed to parse webhooks: unexpected shape",
            "{}",
            body
        );
    }
    let without_id = GitHubClient::new("t", "acme").get_webhooks(
        r#"[{"id": null, "url": "u", "config": {"url": "t", "content_type": "json"}, "events": []},
            {"url": "u", "config": {"url": "t", "content_type": "json"}, "events": []}]"#,
    )
    .expect("hooks");
    assert!(without_id[0].id.is_none() && without_id[1].id.is_none());
    assert!(message(GitHubClient::new("t", "acme").get_webhooks("[").map(|_| ())).starts_with("Failed to parse webhooks: "));
    assert_eq!(
        message(GitHubClient::read_team("[]").map(|_| ())),
        "Failed to parse team: unexpected shape"
    );
    assert_eq!(
        message(GitHubClient::read_membership(r#"{"role": 1}"#).map(|_| ())),
        "Failed to parse membership: unexpected shape"
    );
    assert_eq!(
        message(GitHubClient::read_team_repos(r#"[{"name": "r"}]"#).map(|_| ())),
        "Failed to parse team repos: unexpected shape"
    );
    assert_eq!(
        message(GitHubClient::read_team_repo_permission("5").map(|_| ())),
        "Failed to parse team repo: unexpected shape"
    );
    assert_eq!(
        message(GitHubClient::read_repo_list("{}").map(|_| ())),
        "Failed to parse repositories: unexpected shape"
    );
    assert_eq!(
        message(GitHubClient::read_team_list("1").map(|_| ())),
        "Failed to parse teams: unexpected shape"
    );
    assert_eq!(
        message(GitHubClient::read_member_list("\"x\"").map(|_| ())),
        "Failed to parse members: unexpected shape"
    );
    assert_eq!(
        message(GitHubClient::read_login_list("{}").map(|_| ())),
        "Failed to parse team members: unexpected shape"
    );
}
