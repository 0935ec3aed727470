use gh_config_cli::api_mapping::{ApiFieldMapping, HttpMethod, MappingTable, ResourceType};
use gh_config_cli::collision::preferred;
use gh_config_cli::documents::parse_json;
use gh_config_cli::schema::{get_field, parse_method, resolve_ref, scan_schema};

fn candidate(key: &str, endpoint: &str, method: HttpMethod) -> ApiFieldMapping {
    ApiFieldMapping {
        resource_type: ResourceType::Other,
        config_key: key.to_string(),
        endpoint: endpoint.to_string(),
        method,
        json_path: key.to_string(),
    }
}

#[test]
fn references_are_followed_part_by_part() {
    let schema = parse_json(
        r#"{"components": {"schemas": {"a/b": {"x": 1}, "t~": {"y": 2}, "": {"z": 3}}}, "list": [1]}"#,
    )
    .unwrap();
    let at = |path: &str| resolve_ref(&schema, path).map(|n| format!("{:?}", n));
    assert_eq!(
        resolve_ref(&schema, "#/components/schemas/a~1b/x").unwrap().as_i64(),
        Some(1)
    );
    assert_eq!(resolve_ref(&schema, "#/components/schemas/t~0/y").unwrap().as_i64(), Some(2));
    assert_eq!(resolve_ref(&schema, "components/schemas//z").unwrap().as_i64(), Some(3));
    assert_eq!(resolve_ref(&schema, "#/#/components/schemas//z").unwrap().as_i64(), Some(3));
    assert!(at("#/components/missing").is_none());
    assert!(at("#/list/0").is_none());
    assert!(at("#/components/schemas/a~1b/x/deeper").is_none());
    // The whole document lies behind no reference: the empty part is a key.
    assert!(at("").is_none());
    assert!(at("#/").is_none());
    assert_eq!(get_field(&schema, "list").is_some(), true);
    assert!(get_field(&schema, "none").is_none());
}

#[test]
fn operations_that_write_are_recognized_by_their_name() {
    assert_eq!(parse_method("patch"), Some(HttpMethod::Patch));
    assert_eq!(parse_method("PUT"), Some(HttpMethod::Put));
    assert_eq!(parse_method("Post"), Some(HttpMethod::Post));
    assert_eq!(parse_method("get"), None);
    assert_eq!(parse_method("delete"), None);
    assert_eq!(parse_method("parameters"), None);
    assert_eq!(parse_method(""), None);
    assert_eq!(HttpMethod::Patch.as_str(), "PATCH");
    assert_eq!(HttpMethod::Put.as_str(), "PUT");
    assert_eq!(HttpMethod::Post.as_str(), "POST");
}

#[test]
fn candidates_come_path_by_path_in_the_order_of_the_names() {
    let schema = parse_json(
        r#"{"paths": {
            "/teams/{id}": {"put": {"requestBody": {"content": {"application/json": {"schema": {"properties": {"b": {}, "a": {}}}}}}},
                            "patch": {"requestBody": {"content": {"application/json": {"schema": {"properties": {"c": {}}}}}}},
                            "get": {"requestBody": {"content": {"application/json": {"schema": {"properties": {"d": {}}}}}}},
                            "post": {"requestBody": {"content": {"text/plain": {}}}}},
            "/gists": {"post": {"requestBody": {"content": {"application/json": {"schema": {"properties": "none"}}}}},
                       "put": {}}
        }}"#,
    )
    .unwrap();
    let found = scan_schema(&schema).expect("candidates");
    let seen: Vec<(&str, &str, &str, &str)> = found
        .iter()
        .map(|m| {
            (m.endpoint.as_str(), m.method.as_str(), m.config_key.as_str(), m.resource_type.as_str())
        })
        .collect();
    // Paths and operations come in the order of their names; the fields of
    // a body come as the document holds them.
    assert_eq!(
        seen,
        vec![
            ("/teams/{id}", "PATCH", "c", "team"),
            ("/teams/{id}", "PUT", "b", "team"),
            ("/teams/{id}", "PUT", "a", "team"),
        ]
    );
    assert!(found.iter().all(|m| m.json_path == m.config_key));
}

#[test]
fn candidates_take_their_key_unless_a_preferred_mapping_holds_it() {
    let plain = candidate("k", "/orgs/{org}", HttpMethod::Patch);
    let put = candidate("k", "/repos/{owner}/{repo}", HttpMethod::Put);
    let best = candidate("k", "/repos/{owner}/{repo}/pages", HttpMethod::Patch);
    let later = candidate("k", "/repos/{owner}/{repo}", HttpMethod::Patch);
    assert!(!preferred(&plain));
    assert!(!preferred(&put));
    assert!(preferred(&best));
    assert!(preferred(&later));
    assert!(!preferred(&candidate("k", "/repos/{org}/{repo}", HttpMethod::Patch)));

    let table = MappingTable::from_candidates(vec![
        plain.clone(),
        candidate("other", "/x", HttpMethod::Post),
        put.clone(),
        best.clone(),
        later.clone(),
        plain.clone(),
    ]);
    assert_eq!(table.len(), 2);
    assert_eq!(table.entries[0].config_key, "k");
    assert_eq!(table.get("k").unwrap().endpoint, "/repos/{owner}/{repo}/pages");
    assert_eq!(table.get("other").unwrap().endpoint, "/x");

    let table = MappingTable::from_candidates(vec![plain.clone(), put.clone()]);
    assert_eq!(table.get("k").unwrap().method, HttpMethod::Put);
    assert!(MappingTable::from_candidates(vec![]).entries.is_empty());

    let mut table = MappingTable::new();
    table.offer(best.clone());
    table.offer(plain.clone());
    assert_eq!(table.get("k").unwrap().method, HttpMethod::Patch);
    assert_eq!(table.get("k").unwrap().endpoint, "/repos/{owner}/{repo}/pages");
    // Putting a mapping into the table asks no question.
    table.insert(plain.clone());
    assert_eq!(table.get("k").unwrap().endpoint, "/orgs/{org}");
    assert_eq!(table.len(), 1);
    assert_eq!(table.position("k"), Some(0));
    assert_eq!(table.position("z"), None);
}

#[test]
fn entries_are_listed_sorted_by_key() {
    let table = MappingTable::from_candidates(vec![
        candidate("b", "/1", HttpMethod::Post),
        candidate("a", "/2", HttpMethod::Post),
        candidate("c", "/3", HttpMethod::Post),
    ]);
    let keys: Vec<String> = table.sorted_by_key().into_iter().map(|m| m.config_key).collect();
    assert_eq!(keys, vec!["a", "b", "c"]);
    assert_eq!(table.entries[0].config_key, "b");
}
