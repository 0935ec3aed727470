use gh_config_cli::api_mapping::{
    get_repo_settings_mapping, infer_resource_type, HttpMethod, MappingTable, ResourceType,
};
use gh_config_cli::documents::parse_json;
use gh_config_cli::schema::generate_mapping;

const SCHEMA: &str = r##"
{
  "paths": {
    "/repos/{owner}/{repo}": {
      "get": {},
      "patch": {
        "requestBody": {
          "content": {
            "application/json": {
              "schema": {
                "properties": {
                  "allow_merge_commit": {"type": "boolean"},
                  "name": {"type": "string"}
                }
              }
            }
          }
        }
      }
    },
    "/orgs/{org}": {
      "patch": {
        "requestBody": {
          "content": {
            "application/json": {
              "schema": {"$ref": "#/components/schemas/org~1update"}
            }
          }
        }
      }
    },
    "/user/repos": {
      "post": {
        "requestBody": {
          "content": {
            "application/json": {
              "schema": {
                "properties": {
                  "allow_merge_commit": {"type": "boolean"},
                  "name": {"type": "string"}
                }
              }
            }
          }
        }
      }
    }
  },
  "components": {
    "schemas": {
      "org/update": {
        "properties": {
          "billing_email": {"type": "string"},
          "name": {"type": "string"}
        }
      }
    }
  }
}
"##;

fn get_github_api_mapping() -> MappingTable {
    let schema = parse_json(SCHEMA).expect("schema is JSON");
    generate_mapping(&schema).expect("schema makes a table")
}

#[test]
fn test_mapping_contains_known_repo_fields() {
    let map = get_github_api_mapping();
    let amc = map.get("allow_merge_commit").expect("mapping for allow_merge_commit");
    assert!(amc.endpoint.contains("/repos/") || amc.endpoint.contains("{repo}"));
    assert_eq!(amc.method.as_str(), "PATCH");
    assert_eq!(amc.json_path, "allow_merge_commit");
}

#[test]
fn test_mapping_contains_org_field() {
    let map = get_github_api_mapping();
    if let Some(org_field) = map.get("billing_email") {
        assert!(org_field.endpoint.contains("/orgs/") || org_field.endpoint.contains("{org}"));
    }
}

#[test]
fn test_unmapped_field_returns_none() {
    let map = get_github_api_mapping();
    assert!(map.get("this_field_does_not_exist").is_none());
}

#[test]
fn test_repo_settings_mapping_contains_expected_keys() {
    let map = get_repo_settings_mapping();
    let keys = ["allow_merge_commit", "allow_squash_merge", "allow_rebase_merge"];
    for key in &keys {
        assert!(map.contains_key(key), "Missing key: {}", key);
    }
}

#[test]
fn test_repo_settings_mapping_fields_are_correct() {
    let map = get_repo_settings_mapping();

    let amc = map.get("allow_merge_commit").expect("mapping for allow_merge_commit");
    assert_eq!(amc.resource_type.as_str(), "repo");
    assert_eq!(amc.config_key, "allow_merge_commit");
    assert_eq!(amc.endpoint, "/repos/{org}/{repo}");
    assert_eq!(amc.method.as_str(), "PATCH");
    assert_eq!(amc.json_path, "allow_merge_commit");

    let squash = map.get("allow_squash_merge").expect("mapping for allow_squash_merge");
    assert_eq!(squash.resource_type.as_str(), "repo");
    assert_eq!(squash.config_key, "allow_squash_merge");
    assert_eq!(squash.endpoint, "/repos/{org}/{repo}");
    assert_eq!(squash.method.as_str(), "PATCH");
    assert_eq!(squash.json_path, "allow_squash_merge");

    let arm = map.get("allow_rebase_merge").expect("mapping for allow_rebase_merge");
    assert_eq!(arm.resource_type.as_str(), "repo");
    assert_eq!(arm.config_key, "allow_rebase_merge");
    assert_eq!(arm.endpoint, "/repos/{org}/{repo}");
    assert_eq!(arm.method.as_str(), "PATCH");
    assert_eq!(arm.json_path, "allow_rebase_merge");
}

#[test]
fn test_repo_settings_mapping_unmapped_key_returns_none() {
    let map = get_repo_settings_mapping();
    assert!(map.get("this_key_does_not_exist").is_none());
}

#[test]
fn lookup_finds_patch_to_repos_and_nothing_for_unknown_keys() {
    let map = get_repo_settings_mapping();
    let found = map.lookup("allow_merge_commit").expect("known key");
    assert!(found.endpoint.contains("/repos/"));
    assert_eq!(found.method, HttpMethod::Patch);
    assert!(map.lookup("nonexistent_key").is_none());
    assert_eq!(map.len(), 3);
}

#[test]
fn resource_type_follows_the_path_prefix() {
    assert_eq!(infer_resource_type("/repos/{owner}/{repo}"), ResourceType::Repo);
    assert_eq!(infer_resource_type("/repos/{org}/{repo}/hooks"), ResourceType::Repo);
    assert_eq!(infer_resource_type("/orgs/{org}"), ResourceType::Org);
    assert_eq!(infer_resource_type("/orgs/{org}/repos"), ResourceType::Org);
    assert_eq!(infer_resource_type("/user"), ResourceType::User);
    assert_eq!(infer_resource_type("/user/repos"), ResourceType::User);
    assert_eq!(infer_resource_type("/teams"), ResourceType::Team);
    assert_eq!(infer_resource_type("/x/teams/{id}"), ResourceType::Team);
    assert_eq!(infer_resource_type("/projects/{id}"), ResourceType::Project);
    assert_eq!(infer_resource_type("/gists"), ResourceType::Gist);
    assert_eq!(infer_resource_type("/enterprises/{enterprise}"), ResourceType::Enterprise);
    assert_eq!(infer_resource_type("/repos/other"), ResourceType::Other);
    assert_eq!(infer_resource_type(""), ResourceType::Other);
}

#[test]
fn collision_prefers_patch_to_the_repository() {
    let map = get_github_api_mapping();
    // `allow_merge_commit` is written by PATCH /repos/{owner}/{repo} and by
    // POST /user/repos, which is scanned later: the preferred one stays.
    let amc = map.get("allow_merge_commit").expect("mapped");
    assert_eq!(amc.endpoint, "/repos/{owner}/{repo}");
    assert_eq!(amc.method, HttpMethod::Patch);
    assert_eq!(amc.resource_type, ResourceType::Repo);
    // `name` is written by all three.
    let name = map.get("name").expect("mapped");
    assert_eq!(name.endpoint, "/repos/{owner}/{repo}");
    assert_eq!(name.method, HttpMethod::Patch);
    // `billing_email` comes through the reference.
    let email = map.get("billing_email").expect("mapped");
    assert_eq!(email.endpoint, "/orgs/{org}");
    assert_eq!(email.resource_type, ResourceType::Org);
    assert_eq!(map.len(), 3);
}

#[test]
fn collision_without_a_preferred_mapping_keeps_the_last() {
    let schema = parse_json(
        r#"{"paths": {
            "/b": {"put": {"requestBody": {"content": {"application/json": {"schema": {"properties": {"url": {}}}}}}}},
            "/a": {"POST": {"requestBody": {"content": {"application/json": {"schema": {"properties": {"url": {}}}}}}}}
        }}"#,
    )
    .expect("schema is JSON");
    let map = generate_mapping(&schema).expect("table");
    let url = map.get("url").expect("mapped");
    // Paths are taken in the order of their names: `/a`, then `/b`.
    assert_eq!(url.endpoint, "/b");
    assert_eq!(url.method, HttpMethod::Put);
    assert_eq!(url.resource_type, ResourceType::Other);
}

#[test]
fn dangling_reference_is_a_validation_error() {
    let schema = parse_json(
        r##"{"paths": {"/a": {"post": {"requestBody": {"content": {"application/json": {"schema": {"$ref": "#/nowhere"}}}}}}}}"##,
    )
    .expect("schema is JSON");
    match generate_mapping(&schema) {
        Err(gh_config_cli::error::AppError::Validation(message)) => {
            assert_eq!(message, "Failed to resolve ref: #/nowhere");
        }
        other => panic!("unexpected: {:?}", other.map(|t| t.len())),
    }
}

#[test]
fn operations_that_are_no_mapping_are_a_validation_error() {
    let schema = parse_json(r#"{"paths": {"/a": 5}}"#).expect("schema is JSON");
    match generate_mapping(&schema) {
        Err(gh_config_cli::error::AppError::Validation(message)) => {
            assert_eq!(message, "Operations are no mapping at path: /a");
        }
        other => panic!("unexpected: {:?}", other.map(|t| t.len())),
    }
}

#[test]
fn schema_without_paths_makes_an_empty_table() {
    let schema = parse_json(r#"{"openapi": "3.0"}"#).expect("schema is JSON");
    assert_eq!(generate_mapping(&schema).expect("table").len(), 0);
}
