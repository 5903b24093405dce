use ticket_hooks::error::Error;
use ticket_hooks::hooks::{
    check_commit_branch, check_commit_message, check_push_refs, hook_kind, run_commit, run_push,
    BranchGate, CommitVerdict, HookKind, MessageGate, PushVerdict, RefsGate,
};
use ticket_hooks::matchers::{jira_issue, string_matches};
use ticket_hooks::refs::{base_name, parse_refs};

#[test]
fn matches_exactly_is_anchored_both_ends() {
    assert_eq!(string_matches("abc", "abc"), Ok(true));
    assert_eq!(string_matches("abc", "abcx"), Ok(false));
    assert_eq!(string_matches("abcx", "abc"), Ok(false));
    assert_eq!(string_matches("", ""), Ok(true));
}

#[test]
fn ticket_prefix_is_exactly_two_word_chars() {
    assert!(matches!(jira_issue("ABC-1"), Err(Error::Missing(_))));
    assert!(matches!(jira_issue("A-1"), Err(Error::Missing(_))));
    assert_eq!(jira_issue("AB-1"), Ok("AB-1"));
    assert_eq!(jira_issue("a1-23x"), Ok("a1-23"));
    assert_eq!(jira_issue("__-7"), Ok("__-7"));
}

#[test]
fn ticket_takes_the_whole_digit_run() {
    assert_eq!(jira_issue("DA-890_lol"), Ok("DA-890"));
    assert_eq!(jira_issue("DA-890123extra"), Ok("DA-890123"));
    assert!(matches!(jira_issue("DA-x1"), Err(Error::Missing(_))));
    assert!(matches!(jira_issue(""), Err(Error::Missing(_))));
}

#[test]
fn base_name_takes_the_last_path_segment() {
    assert_eq!(base_name("refs/heads/DA-890_fix"), Ok("DA-890_fix"));
    assert_eq!(base_name("noslash"), Ok("noslash"));
    assert_eq!(base_name("trailing/"), Ok(""));
    assert_eq!(base_name(""), Ok(""));
}

#[test]
fn parse_refs_needs_four_tokens() {
    assert!(matches!(parse_refs("only two tokens"), Err(Error::Missing(_))));
    assert!(matches!(parse_refs(""), Err(Error::Missing(_))));
    let ok = parse_refs("refs/heads/a sha1 refs/heads/b sha2 extra");
    assert_eq!(ok, Ok(("a".to_string(), "b".to_string())));
}

#[test]
fn parse_refs_strips_trailing_whitespace_only() {
    let parsed = parse_refs("refs/heads/DA-1_x sha refs/heads/DA-1_x sha\r\n");
    assert_eq!(parsed, Ok(("DA-1_x".to_string(), "DA-1_x".to_string())));
}

#[test]
fn hook_kind_recognises_the_two_hooks() {
    assert_eq!(hook_kind("commit-msg"), HookKind::CommitMsg);
    assert_eq!(hook_kind("pre-push"), HookKind::PrePush);
    assert_eq!(hook_kind("post-merge"), HookKind::Unsupported);
    assert_eq!(hook_kind("commit-msg "), HookKind::Unsupported);
}

#[test]
fn commit_flow_halts_on_master_before_any_message() {
    // The branch gate alone decides: no commit message is ever needed.
    assert!(matches!(check_commit_branch("master"), BranchGate::MasterForbidden));
    assert_eq!(run_commit("master", "DA-1: irrelevant"), CommitVerdict::MasterForbidden);
}

#[test]
fn commit_flow_accepts_a_referencing_message() {
    assert_eq!(run_commit("DA-1_feature", "DA-1: fix bug"), CommitVerdict::Accepted);
}

#[test]
fn commit_flow_requires_a_ticket_in_the_branch() {
    assert!(matches!(check_commit_branch("no_issue"), BranchGate::NoTicket));
    assert_eq!(run_commit("no_issue", "DA-1: fix bug"), CommitVerdict::BranchLacksTicket);
}

#[test]
fn commit_flow_requires_the_message_to_reference_the_ticket() {
    assert_eq!(check_commit_message("DA-1", "DA-1: fix bug"), MessageGate::Accepted);
    assert_eq!(check_commit_message("DA-1", "fix bug"), MessageGate::MessageLacksTicket);
    assert_eq!(run_commit("DA-1_feature", "fix bug"), CommitVerdict::MessageLacksTicket);
}

#[test]
fn push_flow_halts_on_differing_names() {
    let line = "refs/heads/DA-1_feature 55d4499d refs/heads/DA-2_other 00000000";
    assert_eq!(run_push("DA-1_feature", line), PushVerdict::NameMismatch);
}

#[test]
fn push_flow_requires_a_ticket_in_the_branch() {
    let line = "refs/heads/x sha refs/heads/x sha";
    assert_eq!(run_push("plain_branch", line), PushVerdict::BranchLacksTicket);
}

#[test]
fn push_flow_rejects_a_short_line() {
    assert!(matches!(check_push_refs("DA-1", "too short"), RefsGate::MalformedLine));
    assert_eq!(run_push("DA-1_feature", "too short"), PushVerdict::MalformedLine);
}

#[test]
fn push_flow_requires_the_remote_to_reference_the_ticket() {
    let line = "refs/heads/other_name sha refs/heads/other_name sha";
    assert_eq!(run_push("DA-1_feature", line), PushVerdict::RemoteLacksTicket);
}

#[test]
fn push_flow_accepts_a_matching_ref_pair() {
    let line = "refs/heads/DA-1_feature 55d4499d refs/heads/DA-1_feature 00000000\n";
    assert_eq!(run_push("DA-1_feature", line), PushVerdict::Accepted);
}

#[test]
fn flows_give_identical_verdicts_on_identical_inputs() {
    let first = run_commit("DA-1_feature", "DA-1: fix bug");
    let second = run_commit("DA-1_feature", "DA-1: fix bug");
    assert_eq!(first, second);
    let line = "refs/heads/DA-1_feature 55d4499d refs/heads/DA-1_feature 00000000";
    let once = run_push("DA-1_feature", line);
    let again = run_push("DA-1_feature", line);
    assert_eq!(once, again);
}
