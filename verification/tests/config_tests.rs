use gh_config_cli::config::{BranchProtection, BranchProtectionRule, Config, RepoSettings};
use gh_config_cli::documents::parse_yaml;
use gh_config_cli::error::AppError;
use gh_config_cli::node::Node;

#[test]
fn test_merge_with_defaults() {
    let defaults_yaml = r#"
org: test-org
repos:
  - name: repo1
    settings:
      allow_merge_commit: false
      allow_squash_merge: true
      custom_default: 42
    custom_policy: "default"
extra_default: "foo"
"#;
    let main_yaml = r#"
org: test-org
repos:
  - name: repo1
    settings:
      allow_merge_commit: true
      allow_rebase_merge: true
    custom_policy: "main"
"#;
    let config = Config::from_file_with_defaults(main_yaml, Some(defaults_yaml))
        .expect("parse merged config");

    // Main config takes precedence
    println!("config.repos.len() = {}", config.repos.len());
    let repo = &config.repos[0];
    assert_eq!(repo.settings.get("allow_merge_commit").unwrap().as_bool().unwrap(), true);
    assert_eq!(repo.settings.get("allow_squash_merge").unwrap().as_bool().unwrap(), true);
    assert_eq!(repo.settings.get("allow_rebase_merge").unwrap().as_bool().unwrap(), true);
    // Custom default is filled in
    assert_eq!(repo.settings.get("custom_default").unwrap().as_i64().unwrap(), 42);
    // Custom policy: main config wins
    assert_eq!(repo.extra.get("custom_policy").unwrap().as_str().unwrap(), "main");
    // Top-level extra field from defaults
    assert_eq!(config.extra.get("extra_default").unwrap().as_str().unwrap(), "foo");
}

#[test]
fn test_branch_protection_rule_deserialization() {
    let yaml = r#"
pattern: main
enforce_admins: true
allow_deletions: false
allow_force_pushes: false
"#;

    let rule: BranchProtectionRule =
        BranchProtectionRule::from_node(&parse_yaml(yaml).expect("deserialize"))
            .expect("deserialize");
    assert_eq!(rule.pattern, "main");
    assert!(rule.enforce_admins);
    assert!(!rule.allow_deletions);
    assert!(!rule.allow_force_pushes);
}

#[test]
fn test_config_with_branch_protections() {
    let yaml = r#"
org: test-org
default_branch_protections:
  - pattern: main
    enforce_admins: true
    allow_deletions: false
    allow_force_pushes: false
repos:
  - name: repo1
    branch_protections:
      - pattern: release/*
        enforce_admins: true
        allow_deletions: false
        allow_force_pushes: false
    settings:
      allow_merge_commit: true
      allow_squash_merge: true
      allow_rebase_merge: true
teams: []
users: []
assignments: []
"#;

    let config = Config::from_file_with_defaults(yaml, None).expect("parse config");
    assert_eq!(config.org, "test-org");
    assert_eq!(config.default_branch_protections.len(), 1);
    assert_eq!(config.repos.len(), 1);
    let repo = &config.repos[0];
    assert_eq!(repo.branch_protections.len(), 1);
    assert_eq!(repo.branch_protections[0].pattern, "release/*");
}

#[test]
fn test_from_file_deserializes_valid_yaml() {
    let yaml = r#"
org: test-org
repos:
  - name: repo1
    settings:
      allow_merge_commit: true
      allow_squash_merge: false
      allow_rebase_merge: true
    visibility: public
    webhook:
      url: "http://example.com"
      content_type: "json"
      events: ["push", "pull_request"]
teams:
  - name: team1
    members: ["alice", "bob"]
users:
  - login: alice
    role: admin
  - login: bob
    role: member
assignments:
  - repo: repo1
    team: team1
    permission: admin
default_webhook:
  url: "http://default.com"
  content_type: "json"
  events: ["push"]
"#;

    let config = Config::from_file_with_defaults(yaml, None).expect("parse config");

    assert_eq!(config.org, "test-org");
    assert_eq!(config.repos.len(), 1);
    assert_eq!(config.teams.len(), 1);
    assert_eq!(config.users.len(), 2);
    assert_eq!(config.assignments.len(), 1);
    assert!(config.default_webhook.is_some());
}

#[test]
fn decoded_fields_hold_what_the_document_holds() {
    let yaml = r#"
org: acme
repos:
  - name: r1
    visibility: private
    webhook:
      url: "http://example.com"
      content_type: "json"
      events: ["push", "pull_request"]
    branch_protections:
      - pattern: dev
        allow_deletions: true
teams:
  - name: infra
    members: [zoe, adam]
users:
  - login: zoe
    role: admin
assignments:
  - repo: r1
    team: infra
    permission: push
"#;
    let config = Config::from_file_with_defaults(yaml, None).expect("parse config");
    let repo = &config.repos[0];
    assert_eq!(repo.name, "r1");
    assert_eq!(repo.visibility.as_deref(), Some("private"));
    let hook = repo.webhook.as_ref().expect("webhook");
    assert_eq!(hook.url, "http://example.com");
    assert_eq!(hook.content_type, "json");
    assert_eq!(hook.events, vec!["push", "pull_request"]);
    assert!(repo.settings.is_empty());
    assert!(repo.extra.is_empty());
    let rule = &repo.branch_protections[0];
    assert_eq!(rule.pattern, "dev");
    assert!(!rule.enforce_admins);
    assert!(rule.allow_deletions);
    assert!(!rule.allow_force_pushes);
    assert_eq!(config.teams[0].name, "infra");
    assert_eq!(config.teams[0].members, vec!["zoe", "adam"]);
    assert_eq!(config.users[0].login, "zoe");
    assert_eq!(config.users[0].role, "admin");
    assert_eq!(config.assignments[0].repo, "r1");
    assert_eq!(config.assignments[0].team, "infra");
    assert_eq!(config.assignments[0].permission, "push");
    assert!(config.default_webhook.is_none());
    assert!(config.default_branch_protections.is_empty());
    assert!(config.extra.is_empty());
}

#[test]
fn null_stands_for_an_empty_list_and_for_no_webhook() {
    let config = Config::from_file_with_defaults(
        "org: acme\nrepos: ~\nteams:\n  - name: t\n    members: ~\ndefault_webhook: ~\n",
        None,
    )
    .expect("parse config");
    assert!(config.repos.is_empty());
    assert_eq!(config.teams.len(), 1);
    assert!(config.teams[0].members.is_empty());
    assert!(config.default_webhook.is_none());
}

#[test]
fn document_without_org_is_no_configuration() {
    match Config::from_file_with_defaults("repos: []\n", None) {
        Err(AppError::Serialization(message)) => {
            assert_eq!(message, "document is no configuration")
        }
        other => panic!("unexpected: {:?}", other),
    }
}

#[test]
fn document_with_a_field_of_the_wrong_kind_is_no_configuration() {
    for yaml in [
        "org: 5\n",
        "org: acme\nrepos: 7\n",
        "org: acme\nrepos:\n  - settings: {}\n",
        "org: acme\nrepos:\n  - name: r\n    settings: [1]\n",
        "org: acme\nteams:\n  - name: t\n",
        "org: acme\nusers:\n  - login: l\n",
        "org: acme\nassignments:\n  - repo: r\n    team: t\n",
        "org: acme\ndefault_webhook:\n  url: u\n",
        "org: acme\ndefault_branch_protections:\n  - pattern: p\n    enforce_admins: 1\n",
        "- a\n",
    ] {
        assert!(
            matches!(
                Config::from_file_with_defaults(yaml, None),
                Err(AppError::Serialization(_))
            ),
            "accepted: {}",
            yaml
        );
    }
}

#[test]
fn text_that_is_no_yaml_is_a_serialization_error() {
    assert!(matches!(
        Config::from_file_with_defaults("org: [unclosed\n", None),
        Err(AppError::Serialization(_))
    ));
    assert!(matches!(
        Config::from_file_with_defaults("org: acme\n", Some("a: [unclosed\n")),
        Err(AppError::Serialization(_))
    ));
}

#[test]
fn document_with_a_key_that_is_no_text_is_refused() {
    match Config::from_file_with_defaults("org: acme\n1: x\n", None) {
        Err(AppError::Serialization(message)) => {
            assert_eq!(message, "unsupported value in document")
        }
        other => panic!("unexpected: {:?}", other),
    }
}

#[test]
fn default_rules_are_those_for_main() {
    let rule = BranchProtectionRule::default();
    assert_eq!(rule.pattern, "main");
    assert!(rule.enforce_admins);
    assert!(!rule.allow_deletions);
    assert!(!rule.allow_force_pushes);
    let protection = BranchProtection::default();
    assert_eq!(
        protection,
        BranchProtection { enforce_admins: true, allow_deletions: false, allow_force_pushes: false }
    );
}

#[test]
fn bag_lookup_and_insert() {
    let mut bag = RepoSettings::new();
    assert!(bag.is_empty());
    assert!(bag.get("a").is_none());
    bag.insert("a".to_string(), Node::Bool(true));
    bag.insert("b".to_string(), Node::Null);
    bag.insert("a".to_string(), Node::Bool(false));
    assert_eq!(bag.len(), 2);
    assert!(bag.contains_key("a"));
    assert!(!bag.contains_key("c"));
    assert_eq!(bag.get("a").unwrap().as_bool(), Some(false));
    assert!(bag.get("b").unwrap().is_null());
    assert_eq!(bag.entries[0].0, "a");
    let copy = bag.clone();
    assert_eq!(copy.len(), 2);
    assert_eq!(copy.get("a").unwrap().as_bool(), Some(false));
}
