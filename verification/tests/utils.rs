use ticket_hooks::matchers::{jira_issue, string_matches, string_starts_with};
use ticket_hooks::refs::{base_name, parse_refs};

#[test]
fn test_current_branch() {
}

#[test]
fn test_base_name() {
    let callee = ".git/hooks/commit-msg";
    match base_name(callee) {
        Ok(v) => assert_eq!(v, "commit-msg"),
        Err(_) => assert!(false),
    };
}

#[test]
fn test_jira_issue() {
    let issue = "DA-999_test_branch";
    match jira_issue(issue) {
        Ok(v) => assert_eq!(v, "DA-999"),
        Err(_) => assert!(false),
    }
    match jira_issue("no_issue") {
        Ok(_) => assert!(false),
        Err(_) => assert!(true),
    }
}

#[test]
fn test_string_matches() {
    let s = "master";
    match string_matches(s, "master") {
        Ok(v) => assert!(v),
        Err(_) => assert!(false),
    }
    match string_matches(s, "not") {
        Ok(v) => assert!(!v),
        Err(_) => assert!(false),
    }
}

#[test]
fn test_string_starts_with() {
    let s = "DA-999: Did stuff";
    match string_starts_with(s, "DA-999") {
        Ok(v) => assert!(v),
        Err(_) => assert!(false),
    }
    match string_starts_with(s, "nope") {
        Ok(v) => assert!(!v),
        Err(_) => assert!(false),
    }
}

#[test]
fn test_parse_refs() {
    let s = "refs/heads/DA-890_lol 55d4499d1f96b014eed76b3603dd077bc6b51972 refs/heads/DA-890_lol 0000000000000000000000000000000000000000\n";
    match parse_refs(s) {
        Ok(v) => {
            let (local, remote) = v;
            assert_eq!(local, "DA-890_lol");
            assert_eq!(local, remote);
        },
        Err(_) => assert!(false),
    }
}

#[test]
fn test_push_refs() {
}
