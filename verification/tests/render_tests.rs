use gh_config_cli::config::Config;
use gh_config_cli::github::GitHubClient;
use gh_config_cli::render::{managed, write_setting, FileAction};
use gh_config_cli::documents::parse_yaml;

fn config(yaml: &str) -> Config {
    Config::from_file_with_defaults(yaml, None).expect("config")
}

const FULL: &str = r#"
org: acme
default_webhook: {url: http://d, content_type: json, events: [push, issues]}
repos:
  - name: r2
    settings: {has_wiki: true, allow_squash_merge: false, allow_merge_commit: true}
    visibility: private
    webhook: {url: http://d, content_type: json, events: [push, issues]}
  - name: r1
    webhook: {url: http://own, content_type: form, events: [b, a]}
teams:
  - {name: t2, members: [zoe, adam]}
  - {name: t1, members: []}
users:
  - {login: zoe, role: admin}
  - {login: adam, role: member}
assignments:
  - {repo: r2, team: t1, permission: push}
  - {repo: r1, team: t2, permission: admin}
  - {repo: r1, team: t1, permission: pull}
"#;

const FULL_TEXT: &str = "org: acme

assignments:
- repo: r1
  team: t1
  permission: pull
- repo: r2
  team: t1
  permission: push
- repo: r1
  team: t2
  permission: admin

default_webhook:
  url: http://d
  content_type: json
  events:
  - issues
  - push

repos:
- name: r1
  settings: {}
  webhook:
    url: http://own
    content_type: form
    events:
    - a
    - b
- name: r2
  settings:
    allow_merge_commit: true
    allow_squash_merge: false
  visibility: private

teams:
- name: t1
  members:
- name: t2
  members:
  - adam
  - zoe

users:
- login: adam
  role: member
- login: zoe
  role: admin

";

#[test]
fn generated_configuration_is_written_section_by_section() {
    assert_eq!(GitHubClient::render_config(&config(FULL)), FULL_TEXT);
}

#[test]
fn generated_configuration_of_an_empty_organization() {
    assert_eq!(GitHubClient::render_config(&config("org: acme\n")), "org: acme\n\nassignments: []\n\n");
}

#[test]
fn generated_configuration_is_reported_or_written() {
    let client = GitHubClient::new("t", "acme");
    let source = config("org: acme\n");
    match client.generate_config_and_write(&source, "out/config.yaml", true) {
        FileAction::Report(text) => assert_eq!(
            text,
            "Dry run: Would write the following config to out/config.yaml:\norg: acme\n\nassignments: []\n\n"
        ),
        other => panic!("unexpected: {:?}", other),
    }
    match client.generate_config_and_write(&source, "out/config.yaml", false) {
        FileAction::Write { path, content } => {
            assert_eq!(path, "out/config.yaml");
            assert_eq!(content, "org: acme\n\nassignments: []\n\n");
        }
        other => panic!("unexpected: {:?}", other),
    }
}

#[test]
fn setting_values_are_written_without_white_space_around_them() {
    assert_eq!(write_setting(&parse_yaml("true").unwrap()), "true");
    assert_eq!(write_setting(&parse_yaml("'a b '").unwrap()), "'a b '");
    assert_eq!(write_setting(&parse_yaml("42").unwrap()), "42");
    assert_eq!(write_setting(&parse_yaml("~").unwrap()), "null");
    assert!(managed("allow_merge_commit"));
    assert!(managed("allow_squash_merge"));
    assert!(managed("allow_rebase_merge"));
    assert!(!managed("has_wiki"));
    assert!(!managed(""));
}
