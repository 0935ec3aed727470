use gh_config_cli::documents::parse_yaml;
use gh_config_cli::merge::{find_named, merge_values, merge_with_defaults, name_of};
use gh_config_cli::node::{Node, Number};

fn yaml(text: &str) -> Node {
    parse_yaml(text).expect("yaml")
}

fn merged(main: &str, defaults: &str) -> Node {
    merge_with_defaults(yaml(main), yaml(defaults))
}

fn assert_same(actual: &Node, expected: &str) {
    let expected = yaml(expected);
    assert!(actual.same_as(&expected), "got {:?}, expected {:?}", actual, expected);
}

/// Equality that minds the order of a mapping's entries.
fn identical(a: &Node, b: &Node) -> bool {
    format!("{:?}", a) == format!("{:?}", b)
}

#[test]
fn merge_scalar_main_wins() {
    let merged = merge_with_defaults(Node::Bool(true), Node::Bool(false));
    assert!(merged.same_as(&Node::Bool(true)));
    assert_same(&self::merged("a: 1", "a: 2"), "a: 1");
    assert_same(&self::merged("a: 1", "a: {b: 2}"), "a: 1");
    assert_same(&self::merged("a: {b: 2}", "a: 1"), "a: {b: 2}");
    assert_same(&self::merged("a: [1]", "a: {b: 2}"), "a: [1]");
    assert_same(&self::merged("5", "{a: 1}"), "5");
}

#[test]
fn merge_with_empty_defaults_changes_nothing() {
    for text in ["a: 1\nb: [x, y]\nc: {d: ~}", "[1, 2]", "text", "{}", "~", "repos: []"] {
        let main = yaml(text);
        let merged = merge_values(&main, &yaml("{}"));
        assert!(identical(&merged, &main), "{}", text);
    }
}

#[test]
fn merge_into_empty_mapping_gives_the_defaults() {
    for text in ["a: 1\nb: [x, y]\nc: {d: ~}", "{}", "repos: [{name: a}]"] {
        let defaults = yaml(text);
        let merged = merge_values(&yaml("{}"), &defaults);
        assert!(identical(&merged, &defaults), "{}", text);
    }
    // Defaults that are no mapping leave the empty mapping as it is.
    assert_same(&merged("{}", "text"), "{}");
}

#[test]
fn merge_is_idempotent_on_named_records() {
    let main = "org: o\nrepos:\n  - name: a\n    settings: {x: 1}\n  - name: c\n";
    let defaults =
        "repos:\n  - name: a\n    settings: {x: 2, y: 3}\n  - name: b\nextra: {k: v}\n";
    let once = merged(main, defaults);
    let twice = merge_values(&once, &yaml(defaults));
    assert!(identical(&once, &twice));
}

#[test]
fn merge_twice_repeats_plain_items_of_a_sequence() {
    let defaults = yaml("events: [push]");
    let once = merge_values(&yaml("events: [push]"), &defaults);
    assert_same(&once, "events: [push, push]");
    let twice = merge_values(&once, &defaults);
    assert_same(&twice, "events: [push, push, push]");
}

#[test]
fn merge_empty_sequence_takes_the_default_sequence() {
    assert_same(&merged("repos: []", "repos:\n  - name: a\n"), "repos:\n  - name: a\n");
    assert_same(&merged("[]", "[1, 2]"), "[1, 2]");
    assert_same(&merged("repos: [x]", "repos: []"), "repos: [x]");
}

#[test]
fn merge_records_by_name() {
    let out = merged(
        "repos:\n  - name: a\n    settings: {x: 1}\n",
        "repos:\n  - name: a\n    settings: {x: 2, y: 3}\n",
    );
    let repos = out.get("repos").expect("repos");
    let repo = match repos {
        Node::Sequence(items) => {
            assert_eq!(items.len(), 1);
            &items[0]
        }
        other => panic!("no sequence: {:?}", other),
    };
    assert_eq!(repo.get("name").unwrap().as_str(), Some("a"));
    let settings = repo.get("settings").expect("settings");
    assert_eq!(settings.get("x").unwrap().as_i64(), Some(1));
    assert_eq!(settings.get("y").unwrap().as_i64(), Some(3));
    assert_same(settings, "{x: 1, y: 3}");
}

#[test]
fn merge_sequences_keeps_main_in_its_order_and_appends_what_has_no_match() {
    let out = merged("- name: b\n- name: a\n", "- name: a\n- name: c\n");
    let expected = yaml("- name: b\n- name: a\n- name: c\n");
    assert!(identical(&out, &expected), "{:?}", out);

    let out = merged(
        "- name: a\n  v: 1\n- name: c\n- plain\n",
        "- name: b\n- name: a\n  w: 2\n- 7\n",
    );
    let expected = yaml("- name: a\n  v: 1\n  w: 2\n- name: c\n- plain\n- name: b\n- 7\n");
    assert!(identical(&out, &expected), "{:?}", out);
}

#[test]
fn merge_sequences_matches_the_first_record_under_a_name() {
    // Only the first record of main under a name takes defaults, and it
    // takes those of the first record of the defaults under that name.
    let out = merged(
        "- name: a\n  v: 1\n- name: a\n  v: 2\n",
        "- name: a\n  w: 1\n- name: a\n  w: 2\n  x: 3\n- name: 5\n",
    );
    let expected = yaml("- name: a\n  v: 1\n  w: 1\n- name: a\n  v: 2\n- name: 5\n");
    assert!(identical(&out, &expected), "{:?}", out);
}

#[test]
fn merge_mappings_keeps_the_order_of_main_and_appends_what_is_missing() {
    let out = merged("b: 1\na: {x: 1}\n", "c: 3\na: {y: 2, x: 9}\nb: 0\n");
    let expected = yaml("b: 1\na: {x: 1, y: 2}\nc: 3\n");
    assert!(identical(&out, &expected), "{:?}", out);
}

#[test]
fn names_of_records() {
    assert_eq!(name_of(&yaml("name: a")), Some("a"));
    assert_eq!(name_of(&yaml("name: 5")), None);
    assert_eq!(name_of(&yaml("title: a")), None);
    assert_eq!(name_of(&yaml("text")), None);
    let items = match yaml("- name: a\n- x\n- name: b\n- name: a\n") {
        Node::Sequence(items) => items,
        _ => unreachable!(),
    };
    assert_eq!(find_named(&items, "a"), Some(0));
    assert_eq!(find_named(&items, "b"), Some(2));
    assert_eq!(find_named(&items, "c"), None);
}

#[test]
fn values_compare_without_coercion() {
    assert!(yaml("1").same_as(&yaml("1")));
    assert!(!yaml("1").same_as(&yaml("1.0")));
    assert!(!yaml("1").same_as(&yaml("'1'")));
    assert!(!yaml("true").same_as(&yaml("'true'")));
    assert!(!yaml("~").same_as(&yaml("false")));
    assert!(yaml("1.5").same_as(&yaml("1.5")));
    assert!(yaml(".nan").same_as(&yaml(".NaN")));
    assert!(yaml("-3").same_as(&Node::Number(Number::NegInt(-3))));
    assert!(yaml("3").same_as(&Node::Number(Number::PosInt(3))));
    assert!(yaml("[1, a]").same_as(&yaml("[1, a]")));
    assert!(!yaml("[1, a]").same_as(&yaml("[a, 1]")));
    assert!(!yaml("[1]").same_as(&yaml("[1, 1]")));
}

#[test]
fn mappings_compare_whatever_the_order_of_their_entries() {
    assert!(yaml("{a: 1, b: {c: 2, d: 3}}").same_as(&yaml("{b: {d: 3, c: 2}, a: 1}")));
    assert!(!yaml("{a: 1, b: 2}").same_as(&yaml("{a: 1}")));
    assert!(!yaml("{a: 1}").same_as(&yaml("{a: 1, b: 2}")));
    assert!(!yaml("{a: 1, b: 2}").same_as(&yaml("{a: 1, b: 3}")));
    assert!(!yaml("{a: 1, b: 2}").same_as(&yaml("{a: 1, c: 2}")));
}

#[test]
fn accessors_of_values() {
    assert_eq!(yaml("true").as_bool(), Some(true));
    assert_eq!(yaml("x").as_bool(), None);
    assert_eq!(yaml("42").as_i64(), Some(42));
    assert_eq!(yaml("-42").as_i64(), Some(-42));
    assert_eq!(yaml("42").as_u64(), Some(42));
    assert_eq!(yaml("-42").as_u64(), None);
    assert_eq!(yaml("18446744073709551615").as_i64(), None);
    assert_eq!(yaml("18446744073709551615").as_u64(), Some(u64::MAX));
    assert_eq!(yaml("4.5").as_i64(), None);
    assert_eq!(yaml("x").as_str(), Some("x"));
    assert_eq!(yaml("1").as_str(), None);
    assert!(yaml("~").is_null());
    assert!(!yaml("0").is_null());
    assert!(yaml("[1]").get("a").is_none());
    let copy = yaml("{a: [1, {b: c}], d: 2.5}").duplicate();
    assert!(identical(&copy, &yaml("{a: [1, {b: c}], d: 2.5}")));
}
