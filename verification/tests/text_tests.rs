use gh_config_cli::config::{Assignment, Repo, RepoSettings, Team, User};
use gh_config_cli::error::AppError;
use gh_config_cli::order::{sort_keyed, Keyed};
use gh_config_cli::ssh_keys::generate_key_pair;
use gh_config_cli::text::{
    blank, joined, contains, decimal_text, find_text, matches_at, matches_ignoring_case,
    replace_all, same_text, split_at_char, starts_with, strip_prefixes, text_before_eq, trim,
    trim_end, trim_start, white_space,
};

#[test]
fn prefixes_and_occurrences() {
    assert!(starts_with("/repos/x", "/repos/"));
    assert!(starts_with("abc", ""));
    assert!(starts_with("", ""));
    assert!(!starts_with("ab", "abc"));
    assert!(!starts_with("xabc", "abc"));
    assert!(contains("a/teams/b", "/teams/"));
    assert!(contains("abc", ""));
    assert!(contains("", ""));
    assert!(contains("abc", "c"));
    assert!(!contains("abc", "cb"));
    assert!(!contains("", "a"));
    assert!(matches_at("abcabc", "bc", 4));
    assert!(!matches_at("abcabc", "bc", 5));
    assert!(!matches_at("abc", "", 4));
    assert!(matches_at("abc", "", 3));
    assert!(starts_with("äöü", "äö"));
    assert!(contains("xäöü", "öü"));
}

#[test]
fn texts_compare_like_strings() {
    let samples = ["", "a", "A", "ab", "b", "aa", "é", "z", "zz", "~", "日本", "a\u{10000}"];
    for a in samples {
        for b in samples {
            assert_eq!(text_before_eq(a, b), a <= b, "{:?} {:?}", a, b);
            assert_eq!(same_text(a, b), a == b, "{:?} {:?}", a, b);
        }
    }
}

#[test]
fn blank_texts() {
    assert!(blank(""));
    assert!(blank(" \t\r\n"));
    assert!(blank("\u{a0}\u{2003}\u{3000}\u{85}\u{1680}\u{2028}\u{2029}\u{202f}\u{205f}\u{b}\u{c}"));
    assert!(!blank(" x "));
    assert!(!blank("\u{200b}"));
    for code in 0u32..0x3100 {
        if let Some(c) = char::from_u32(code) {
            assert_eq!(white_space(c), c.is_whitespace(), "{:x}", code);
        }
    }
}

#[test]
fn trimming() {
    for s in ["", "  ", "a", " a", "a ", "  a b \t\n", "\u{3000}x\u{a0}", "a\n\n"] {
        assert_eq!(trim_end(s), s.trim_end(), "{:?}", s);
        assert_eq!(trim_start(s), s.trim_start(), "{:?}", s);
        assert_eq!(trim(s), s.trim(), "{:?}", s);
    }
}

#[test]
fn replacing() {
    let cases = [
        ("/repos/{org}/{repo}", "{org}", "acme"),
        ("aaaa", "aa", "b"),
        ("aaa", "aa", "b"),
        ("abc", "x", "y"),
        ("", "x", "y"),
        ("abc", "abc", ""),
        ("xabcx", "abc", "abcabc"),
        ("~1~1", "~1", "/"),
        ("ab", "abc", "z"),
    ];
    for (s, from, to) in cases {
        assert_eq!(replace_all(s, from, to), s.replace(from, to), "{:?}", (s, from, to));
    }
    // An empty pattern occurs nowhere.
    assert_eq!(replace_all("abc", "", "-"), "abc");
}

#[test]
fn decimal_texts() {
    for n in [0i64, 1, 9, 10, 11, 99, 100, 123, -1, -10, -123, i64::MAX, i64::MIN, i64::MIN + 1] {
        assert_eq!(decimal_text(n), n.to_string());
    }
}

#[test]
fn joining_and_splitting() {
    assert_eq!(joined("ab", "cd"), "abcd");
    assert_eq!(joined("", ""), "");
    for s in ["", "a", "a/b", "/a", "a/", "//", "a//b/"] {
        let expected: Vec<String> = s.split('/').map(|p| p.to_string()).collect();
        assert_eq!(split_at_char(s, '/'), expected, "{:?}", s);
    }
    for s in ["#/a/b", "#/#/a", "a#/", "", "#", "#/"] {
        assert_eq!(strip_prefixes(s, "#/"), s.trim_start_matches("#/"), "{:?}", s);
    }
    assert_eq!(strip_prefixes("aaa", ""), "aaa");
}

#[test]
fn ignoring_case() {
    assert!(matches_ignoring_case("PATCH", "patch"));
    assert!(matches_ignoring_case("Patch", "pAtCh"));
    assert!(matches_ignoring_case("", ""));
    assert!(!matches_ignoring_case("patch", "patc"));
    assert!(!matches_ignoring_case("patch", "patcj"));
    assert!(!matches_ignoring_case("[", "{"));
    assert!(!matches_ignoring_case("@", "`"));
}

#[test]
fn finding_a_text_in_a_list() {
    let names: Vec<String> = ["a", "b", "a", ""].iter().map(|s| s.to_string()).collect();
    assert_eq!(find_text(&names, "a"), Some(0));
    assert_eq!(find_text(&names, "b"), Some(1));
    assert_eq!(find_text(&names, ""), Some(3));
    assert_eq!(find_text(&names, "c"), None);
}

#[test]
fn sorting_is_stable_and_by_key() {
    let mut texts: Vec<String> =
        ["pull_request", "push", "", "issues", "Push", "push"].iter().map(|s| s.to_string()).collect();
    let mut expected = texts.clone();
    expected.sort();
    sort_keyed(&mut texts);
    assert_eq!(texts, expected);

    let team = |name: &str, tag: &str| Team { name: name.to_string(), members: vec![tag.to_string()] };
    let mut teams = vec![team("b", "1"), team("a", "2"), team("b", "3"), team("a", "4"), team("", "5")];
    sort_keyed(&mut teams);
    let order: Vec<&str> = teams.iter().map(|t| t.members[0].as_str()).collect();
    assert_eq!(order, vec!["5", "2", "4", "1", "3"]);

    let mut none: Vec<String> = vec![];
    sort_keyed(&mut none);
    assert!(none.is_empty());
}

#[test]
fn natural_keys() {
    let repo = |name: &str| Repo {
        name: name.to_string(),
        settings: RepoSettings::new(),
        visibility: None,
        webhook: None,
        branch_protections: vec![],
        extra: RepoSettings::new(),
    };
    assert!(repo("a").precedes(&repo("b")));
    assert!(repo("a").precedes(&repo("a")));
    assert!(!repo("b").precedes(&repo("a")));
    let user = |login: &str| User { login: login.to_string(), role: "zzz".to_string() };
    assert!(user("a").precedes(&user("b")));
    assert!(!user("c").precedes(&user("b")));
    let assignment = |team: &str, repo: &str| Assignment {
        repo: repo.to_string(),
        team: team.to_string(),
        permission: "x".to_string(),
    };
    assert!(assignment("a", "z").precedes(&assignment("b", "a")));
    assert!(!assignment("b", "a").precedes(&assignment("a", "z")));
    assert!(assignment("a", "x").precedes(&assignment("a", "y")));
    assert!(!assignment("a", "y").precedes(&assignment("a", "x")));
    assert!(assignment("a", "x").precedes(&assignment("a", "x")));
    let mut list = vec![assignment("b", "1"), assignment("a", "2"), assignment("a", "1")];
    sort_keyed(&mut list);
    let order: Vec<(&str, &str)> = list.iter().map(|a| (a.team.as_str(), a.repo.as_str())).collect();
    assert_eq!(order, vec![("a", "1"), ("a", "2"), ("b", "1")]);
}

#[test]
fn errors_as_lines_of_a_report() {
    assert_eq!(AppError::GitHubApi("x".to_string()).message(), "GitHub API error: x");
    assert_eq!(AppError::Transport("x".to_string()).message(), "HTTP error: x");
    assert_eq!(AppError::Serialization("x".to_string()).message(), "Serialization error: x");
    assert_eq!(AppError::Validation("x".to_string()).message(), "Validation error: x");
    assert_eq!(AppError::Io("x".to_string()).message(), "IO error: x");
    assert!(AppError::GitHubApi("status 404".to_string()).is_not_found());
    assert!(!AppError::GitHubApi("status 403".to_string()).is_not_found());
    assert!(!AppError::Validation("404".to_string()).is_not_found());
    assert!(matches!(AppError::Io("x".to_string()).clone(), AppError::Io(_)));
}

#[test]
fn deploy_keys_are_made_by_ssh_keygen() {
    let plan = generate_key_pair("r1");
    assert_eq!(plan.program, "ssh-keygen");
    assert_eq!(plan.arguments, vec!["-t", "ed25519", "-f", "deploy_key_r1", "-N", "", "-q"]);
    assert_eq!(plan.private_key_path, "deploy_key_r1");
    assert_eq!(plan.public_key_path, "deploy_key_r1.pub");
    let keys = plan.settle(true, "private".to_string(), "public".to_string()).expect("keys");
    assert_eq!(keys, ("private".to_string(), "public".to_string()));
    match plan.settle(false, String::new(), String::new()) {
        Err(AppError::Io(message)) => assert_eq!(message, "ssh-keygen failed"),
        other => panic!("unexpected: {:?}", other),
    }
}
