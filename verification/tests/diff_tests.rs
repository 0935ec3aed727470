use gh_config_cli::config::{Config, WebhookConfig};
use gh_config_cli::diff::{render_hunks, ChangeKind, Hunk, LineChange, LineKind};
use gh_config_cli::documents::{json_text, parse_json, parse_yaml, yaml_text};
use gh_config_cli::error::AppError;
use gh_config_cli::github::GitHubClient;
use gh_config_cli::node::{Node, Number};
use gh_config_cli::normalize::{normalize, same_webhook, sort_events};

fn config(yaml: &str) -> Config {
    Config::from_file_with_defaults(yaml, None).expect("config")
}

const LOCAL: &str = r#"
org: acme
default_webhook:
  url: http://default.com
  content_type: json
  events: [push, pull_request]
repos:
  - name: r2
    settings: {allow_merge_commit: true}
  - name: r1
    settings: {allow_merge_commit: true}
teams:
  - name: infra
    members: [zoe, adam]
users:
  - {login: zoe, role: admin}
  - {login: adam, role: member}
assignments:
  - {repo: r2, team: infra, permission: push}
  - {repo: r1, team: infra, permission: push}
"#;

const REMOTE_SAME: &str = r#"
org: acme
repos:
  - name: r1
    settings: {allow_merge_commit: true}
    webhook:
      url: http://default.com
      content_type: json
      events: [pull_request, push]
  - name: r2
    settings: {allow_merge_commit: true}
    webhook:
      url: http://default.com
      content_type: json
      events: [push, pull_request]
teams:
  - name: infra
    members: [adam, zoe]
users:
  - {login: adam, role: member}
  - {login: zoe, role: admin}
assignments:
  - {repo: r1, team: infra, permission: push}
  - {repo: r2, team: infra, permission: push}
"#;

#[test]
fn default_webhook_on_both_sides_is_no_difference() {
    let client = GitHubClient::new("t", "acme");
    let report = client.diff(&config(LOCAL), &config(REMOTE_SAME)).expect("report");
    assert!(!report.has_differences, "{}", report.text());
    assert!(report.lines.is_empty());
    assert_eq!(report.text(), "");
}

#[test]
fn normal_forms_drop_the_default_webhook_and_sort_every_list() {
    let (local, remote) = normalize(&config(LOCAL), &config(REMOTE_SAME));
    assert!(local.default_webhook.is_none());
    for side in [&local, &remote] {
        let names: Vec<&str> = side.repos.iter().map(|r| r.name.as_str()).collect();
        assert_eq!(names, vec!["r1", "r2"]);
        assert!(side.repos.iter().all(|r| r.webhook.is_none()));
        assert_eq!(side.teams[0].members, vec!["adam", "zoe"]);
        let logins: Vec<&str> = side.users.iter().map(|u| u.login.as_str()).collect();
        assert_eq!(logins, vec!["adam", "zoe"]);
        let repos: Vec<&str> = side.assignments.iter().map(|a| a.repo.as_str()).collect();
        assert_eq!(repos, vec!["r1", "r2"]);
        assert_eq!(side.org, "acme");
    }
}

#[test]
fn a_webhook_that_differs_from_the_default_is_kept_on_both_sides() {
    let remote = config(
        "org: acme\nrepos:\n  - name: r1\n    webhook: {url: http://default.com, content_type: form, events: [push, pull_request]}\n",
    );
    let local = config(
        "org: acme\ndefault_webhook: {url: http://default.com, content_type: json, events: [push, pull_request]}\nrepos:\n  - name: r1\n  - name: r3\n",
    );
    let (local, remote) = normalize(&local, &remote);
    let applied = local.repos[0].webhook.as_ref().expect("default applied");
    assert_eq!(applied.content_type, "json");
    assert_eq!(applied.events, vec!["pull_request", "push"]);
    assert_eq!(local.repos[1].webhook.as_ref().expect("default applied").url, "http://default.com");
    let seen = remote.repos[0].webhook.as_ref().expect("kept");
    assert_eq!(seen.content_type, "form");
    assert_eq!(seen.events, vec!["pull_request", "push"]);
}

#[test]
fn an_explicit_webhook_is_kept_even_if_it_is_the_default() {
    let text = "org: acme\ndefault_webhook: {url: u, content_type: json, events: [push]}\nrepos:\n  - name: r1\n    webhook: {url: u, content_type: json, events: [push]}\n";
    let remote =
        config("org: acme\nrepos:\n  - name: r1\n    webhook: {url: u, content_type: json, events: [push]}\n");
    let (local, remote) = normalize(&config(text), &remote);
    assert!(local.repos[0].webhook.is_some());
    assert!(remote.repos[0].webhook.is_some());
}

#[test]
fn without_a_default_webhook_nothing_is_dropped() {
    let text = "org: acme\nrepos:\n  - name: r1\n";
    let remote =
        config("org: acme\nrepos:\n  - name: r1\n    webhook: {url: u, content_type: json, events: [b, a]}\n");
    let (local, remote) = normalize(&config(text), &remote);
    assert!(local.repos[0].webhook.is_none());
    assert_eq!(remote.repos[0].webhook.as_ref().unwrap().events, vec!["a", "b"]);
}

#[test]
fn differences_are_reported_as_hunks() {
    let client = GitHubClient::new("t", "acme");
    let local = config("org: acme\nrepos:\n  - name: r1\n    settings: {allow_merge_commit: true}\n");
    let remote = config("org: acme\nrepos:\n  - name: r1\n    settings: {allow_merge_commit: false}\n");
    let report = client.diff(&local, &remote).expect("report");
    assert!(report.has_differences);
    assert_eq!(report.lines[0].kind, LineKind::Header);
    assert!(report.lines[0].text.starts_with("@@ -"));
    assert!(report.lines[0].text.ends_with(" @@"));
    let removed: Vec<&str> = report
        .lines
        .iter()
        .filter(|l| l.kind == LineKind::Removed)
        .map(|l| l.text.as_str())
        .collect();
    let added: Vec<&str> = report
        .lines
        .iter()
        .filter(|l| l.kind == LineKind::Added)
        .map(|l| l.text.as_str())
        .collect();
    assert_eq!(removed, vec!["-     allow_merge_commit: false"]);
    assert_eq!(added, vec!["+     allow_merge_commit: true"]);
    let context = report.lines.iter().filter(|l| l.kind == LineKind::Context).count();
    assert!(context >= 3);
    assert!(report.text().contains("\n-     allow_merge_commit: false\n+     allow_merge_commit: true\n"));
}

#[test]
fn a_repository_that_github_lacks_is_all_additions() {
    let client = GitHubClient::new("t", "acme");
    let local = config("org: acme\nrepos:\n  - name: r1\n");
    let remote = config("org: acme\n");
    let report = client.diff(&local, &remote).expect("report");
    assert!(report.has_differences);
    assert!(report.lines.iter().any(|l| l.kind == LineKind::Added && l.text == "+ - name: r1"));
    assert!(report.lines.iter().any(|l| l.kind == LineKind::Removed && l.text == "- repos: []"));
}

#[test]
fn hunks_are_rendered_line_by_line() {
    let line = |kind, text: &str| LineChange { kind, text: text.to_string() };
    let hunks = vec![
        Hunk {
            header: "@@ -1,2 +1,2 @@".to_string(),
            changes: vec![
                line(ChangeKind::Equal, "same  \n"),
                line(ChangeKind::Delete, "old\n"),
                line(ChangeKind::Insert, "new \t"),
            ],
        },
        Hunk { header: "@@ -9 +9 @@".to_string(), changes: vec![line(ChangeKind::Insert, "\n")] },
    ];
    let report = render_hunks(&hunks);
    assert!(report.has_differences);
    let lines: Vec<(LineKind, &str)> =
        report.lines.iter().map(|l| (l.kind, l.text.as_str())).collect();
    assert_eq!(
        lines,
        vec![
            (LineKind::Header, "@@ -1,2 +1,2 @@"),
            (LineKind::Context, "  same"),
            (LineKind::Removed, "- old"),
            (LineKind::Added, "+ new"),
            (LineKind::Header, "@@ -9 +9 @@"),
            (LineKind::Added, "+ "),
        ]
    );
    assert_eq!(report.text(), "@@ -1,2 +1,2 @@\n  same\n- old\n+ new\n@@ -9 +9 @@\n+ \n");
    let none: Vec<Hunk> = vec![];
    let empty = render_hunks(&none);
    assert!(!empty.has_differences);
    assert!(empty.lines.is_empty());
}

#[test]
fn webhooks_compare_field_by_field() {
    let hook = |events: &[&str]| {
        Some(WebhookConfig {
            url: "u".to_string(),
            content_type: "json".to_string(),
            events: events.iter().map(|e| e.to_string()).collect(),
        })
    };
    assert!(same_webhook(&hook(&["a", "b"]), &hook(&["a", "b"])));
    assert!(!same_webhook(&hook(&["a", "b"]), &hook(&["b", "a"])));
    assert!(!same_webhook(&hook(&["a"]), &hook(&["a", "a"])));
    assert!(!same_webhook(&hook(&["a"]), &None));
    assert!(same_webhook(&None, &None));
    let sorted = sort_events(hook(&["b", "c", "a"]).as_ref().unwrap());
    assert_eq!(sorted.events, vec!["a", "b", "c"]);
    assert_eq!(sorted.url, "u");
}

#[test]
fn configuration_is_written_as_yaml() {
    let text = yaml_text(&config(LOCAL).to_node()).expect("yaml");
    let back = Config::from_file_with_defaults(&text, None).expect("round trip");
    assert_eq!(back.org, "acme");
    assert_eq!(back.repos.len(), 2);
    assert_eq!(back.repos[0].name, "r2");
    assert_eq!(back.teams[0].members, vec!["zoe", "adam"]);
    assert_eq!(back.default_webhook.as_ref().unwrap().events, vec!["push", "pull_request"]);
    assert!(text.starts_with("org: acme\nrepos:\n- name: r2\n  settings:\n    allow_merge_commit: true\n  visibility: null\n  webhook: null\n  branch_protections: []\n"));
}

#[test]
fn extra_keys_and_settings_are_written_sorted_by_key() {
    let source = config("zeta: 1\norg: acme\nalpha: [x]\nrepos:\n  - name: r\n    settings: {b: 1, a: 2}\n    owner_team: core\n");
    let text = yaml_text(&source.to_node()).expect("yaml");
    assert!(text.contains("  settings:\n    a: 2\n    b: 1\n"));
    assert!(text.contains("  branch_protections: []\n  owner_team: core\n"));
    assert!(text.ends_with("default_branch_protections: []\nalpha:\n- x\nzeta: 1\n"));
}

#[test]
fn documents_are_read_and_written() {
    let node = parse_yaml("a: [1, -2, 2.5, x, true, ~]\nb: {c: d}\n").expect("yaml");
    assert_eq!(yaml_text(&node).expect("text"), "a:\n- 1\n- -2\n- 2.5\n- x\n- true\n- null\nb:\n  c: d\n");
    assert_eq!(
        json_text(&node).expect("text"),
        r#"{"a":[1,-2,2.5,"x",true,null],"b":{"c":"d"}}"#
    );
    let json = parse_json(r#"{"a": [1, -2, 2.5, "x", true, null], "b": {"c": "d"}}"#).expect("json");
    assert!(json.same_as(&node));
    assert_eq!(yaml_text(&Node::String("x".to_string())).unwrap(), "x\n");
    assert_eq!(json_text(&Node::String("x".to_string())).unwrap(), "\"x\"");
    assert_eq!(json_text(&parse_yaml(".nan").unwrap()).unwrap(), "null");
    assert!(matches!(parse_yaml("a: [b"), Err(AppError::Serialization(_))));
    assert!(matches!(parse_json("{"), Err(AppError::Serialization(_))));
    assert!(matches!(parse_json(r#"{"a": 1, "a": 2}"#), Err(AppError::Serialization(_))));
    let ordered = parse_json(r#"{"b": 1, "a": {"d": 2, "c": 3}}"#).expect("json");
    assert_eq!(json_text(&ordered).expect("text"), r#"{"b":1,"a":{"d":2,"c":3}}"#);
    match parse_yaml("!tagged x") {
        Err(AppError::Serialization(message)) => assert_eq!(message, "unsupported value in document"),
        other => panic!("unexpected: {:?}", other),
    }
    assert!(matches!(
        yaml_text(&Node::Number(Number::Float("no number".to_string()))),
        Err(AppError::Serialization(_))
    ));
}
