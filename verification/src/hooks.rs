//! The two policy flows and their dispatch: which hook was invoked,
//! what each guard decides, and the verdict of a whole run.
//!
//! Every function here is a pure decision over plain string inputs;
//! the surrounding program gathers those inputs (current branch,
//! commit-message file, the push protocol's standard input) and turns
//! verdicts into messages and an exit status.

use vstd::prelude::*;
use vstd::string::StringExecFns;

use crate::matchers::has_ticket;
use crate::matchers::jira_issue;
use crate::matchers::string_matches;
use crate::matchers::string_starts_with;
use crate::matchers::ticket_of;
use crate::refs::local_short_name;
use crate::refs::parse_refs;
use crate::refs::ref_line_ok;
use crate::refs::remote_short_name;

verus! {

/// The flow selected by the base name of the invoking hook script.
#[derive(Debug, Clone, Copy, PartialEq, Eq, Structural)]
pub enum HookKind {
    CommitMsg,
    PrePush,
    Unsupported,
}

/// Which flow a given hook name selects: only the exact names
/// `commit-msg` and `pre-push` are recognised.
pub open spec fn hook_kind_of(name: Seq<char>) -> HookKind {
    if name == "commit-msg"@ {
        HookKind::CommitMsg
    } else if name == "pre-push"@ {
        HookKind::PrePush
    } else {
        HookKind::Unsupported
    }
}

/// Selects the flow from the base name of the invoking hook script.
pub fn hook_kind(name: &str) -> (k: HookKind)
    ensures
        k == hook_kind_of(name@),
{
    let commit = match string_matches(name, "commit-msg") {
        Ok(b) => b,
        Err(_) => false,
    };
    if commit {
        return HookKind::CommitMsg;
    }
    let push = match string_matches(name, "pre-push") {
        Ok(b) => b,
        Err(_) => false,
    };
    if push {
        HookKind::PrePush
    } else {
        HookKind::Unsupported
    }
}

/// What inspecting the current branch decides at commit time, before
/// any commit-message file is read.
#[derive(Debug)]
pub enum BranchGate {
    /// The branch is literally `master`: committing is forbidden.
    MasterForbidden,
    /// The branch name carries no ticket identifier.
    NoTicket,
    /// The ticket identifier found at the head of the branch name.
    Ticket(String),
}

/// Decides the branch-side commit policy: `master` is refused
/// outright, any other branch must carry a ticket identifier, which
/// is handed on for the message check.
pub fn check_commit_branch(branch: &str) -> (g: BranchGate)
    ensures
        (g is MasterForbidden) == (branch@ == "master"@),
        (g is NoTicket) == (branch@ != "master"@ && !has_ticket(branch@)),
        (g is Ticket) == (branch@ != "master"@ && has_ticket(branch@)),
        g matches BranchGate::Ticket(t) ==> t@ == ticket_of(branch@),
{
    let master = match string_matches(branch, "master") {
        Ok(b) => b,
        Err(_) => false,
    };
    if master {
        return BranchGate::MasterForbidden;
    }
    match jira_issue(branch) {
        Ok(t) => BranchGate::Ticket(String::from_str(t)),
        Err(_) => BranchGate::NoTicket,
    }
}

/// What the commit-message check decides.
#[derive(Debug, Clone, Copy, PartialEq, Eq, Structural)]
pub enum MessageGate {
    /// The message does not start with the ticket identifier.
    MessageLacksTicket,
    /// The message references the ticket.
    Accepted,
}

/// Decides the message-side commit policy: the drafted message must
/// start with the ticket identifier extracted from the branch.
pub fn check_commit_message(ticket: &str, message: &str) -> (g: MessageGate)
    ensures
        (g is Accepted) == ticket@.is_prefix_of(message@),
{
    let ok = match string_starts_with(message, ticket) {
        Ok(b) => b,
        Err(_) => false,
    };
    if ok {
        MessageGate::Accepted
    } else {
        MessageGate::MessageLacksTicket
    }
}

/// What inspecting the push protocol's ref line decides, given the
/// ticket identifier extracted from the current branch.
#[derive(Debug, Clone, Copy, PartialEq, Eq, Structural)]
pub enum RefsGate {
    /// The line did not hold the four required tokens.
    MalformedLine,
    /// The local and remote short names differ.
    NameMismatch,
    /// The remote short name does not start with the ticket.
    RemoteLacksTicket,
    /// Every push policy holds.
    Accepted,
}

/// Decides the ref-side push policy: the line must parse, local and
/// remote short names must agree exactly, and the remote name must
/// start with the ticket identifier.
pub fn check_push_refs(ticket: &str, line: &str) -> (g: RefsGate)
    ensures
        (g is MalformedLine) == !ref_line_ok(line@),
        (g is NameMismatch) == (ref_line_ok(line@) && local_short_name(line@)
            != remote_short_name(line@)),
        (g is RemoteLacksTicket) == (ref_line_ok(line@) && local_short_name(line@)
            == remote_short_name(line@) && !ticket@.is_prefix_of(remote_short_name(line@))),
        (g is Accepted) == (ref_line_ok(line@) && local_short_name(line@) == remote_short_name(
            line@,
        ) && ticket@.is_prefix_of(remote_short_name(line@))),
{
    let parsed = match parse_refs(line) {
        Ok(p) => p,
        Err(_) => {
            return RefsGate::MalformedLine;
        },
    };
    let same = match string_matches(parsed.0.as_str(), parsed.1.as_str()) {
        Ok(b) => b,
        Err(_) => false,
    };
    if !same {
        return RefsGate::NameMismatch;
    }
    let references = match string_starts_with(parsed.1.as_str(), ticket) {
        Ok(b) => b,
        Err(_) => false,
    };
    if references {
        RefsGate::Accepted
    } else {
        RefsGate::RemoteLacksTicket
    }
}

/// The outcome of a whole commit-msg run.
#[derive(Debug, Clone, Copy, PartialEq, Eq, Structural)]
pub enum CommitVerdict {
    MasterForbidden,
    BranchLacksTicket,
    MessageLacksTicket,
    Accepted,
}

/// The commit-msg flow as one function of its inputs: the first
/// failed guard names the verdict, and a run is accepted exactly when
/// the branch is not `master`, carries a ticket identifier, and the
/// message starts with that identifier.
pub open spec fn commit_verdict(branch: Seq<char>, message: Seq<char>) -> CommitVerdict {
    if branch == "master"@ {
        CommitVerdict::MasterForbidden
    } else if !has_ticket(branch) {
        CommitVerdict::BranchLacksTicket
    } else if !ticket_of(branch).is_prefix_of(message) {
        CommitVerdict::MessageLacksTicket
    } else {
        CommitVerdict::Accepted
    }
}

/// Runs the full commit-msg flow on a branch name and an already read
/// and trimmed commit message.
pub fn run_commit(branch: &str, message: &str) -> (v: CommitVerdict)
    ensures
        v == commit_verdict(branch@, message@),
{
    match check_commit_branch(branch) {
        BranchGate::MasterForbidden => CommitVerdict::MasterForbidden,
        BranchGate::NoTicket => CommitVerdict::BranchLacksTicket,
        BranchGate::Ticket(t) => match check_commit_message(t.as_str(), message) {
            MessageGate::MessageLacksTicket => CommitVerdict::MessageLacksTicket,
            MessageGate::Accepted => CommitVerdict::Accepted,
        },
    }
}

/// The outcome of a whole pre-push run.
#[derive(Debug, Clone, Copy, PartialEq, Eq, Structural)]
pub enum PushVerdict {
    BranchLacksTicket,
    MalformedLine,
    NameMismatch,
    RemoteLacksTicket,
    Accepted,
}

/// The pre-push flow as one function of its inputs: the first failed
/// guard names the verdict, and a run is accepted exactly when the
/// branch carries a ticket identifier, the ref line parses, local and
/// remote short names agree, and the remote name starts with the
/// identifier.
pub open spec fn push_verdict(branch: Seq<char>, line: Seq<char>) -> PushVerdict {
    if !has_ticket(branch) {
        PushVerdict::BranchLacksTicket
    } else if !ref_line_ok(line) {
        PushVerdict::MalformedLine
    } else if local_short_name(line) != remote_short_name(line) {
        PushVerdict::NameMismatch
    } else if !ticket_of(branch).is_prefix_of(remote_short_name(line)) {
        PushVerdict::RemoteLacksTicket
    } else {
        PushVerdict::Accepted
    }
}

/// Runs the full pre-push flow on a branch name and the first line of
/// the push protocol's standard input.
pub fn run_push(branch: &str, line: &str) -> (v: PushVerdict)
    ensures
        v == push_verdict(branch@, line@),
{
    let ticket = match jira_issue(branch) {
        Ok(t) => t,
        Err(_) => {
            return PushVerdict::BranchLacksTicket;
        },
    };
    match check_push_refs(ticket, line) {
        RefsGate::MalformedLine => PushVerdict::MalformedLine,
        RefsGate::NameMismatch => PushVerdict::NameMismatch,
        RefsGate::RemoteLacksTicket => PushVerdict::RemoteLacksTicket,
        RefsGate::Accepted => PushVerdict::Accepted,
    }
}

/// Both flows are functions of their inputs alone: two runs over
/// identical inputs, with nothing changed in between, reach identical
/// verdicts — there is no hidden state, memoization or counter.
pub proof fn lemma_flows_repeatable(
    branch: Seq<char>,
    message: Seq<char>,
    line: Seq<char>,
    branch_again: Seq<char>,
    message_again: Seq<char>,
    line_again: Seq<char>,
)
    requires
        branch_again == branch,
        message_again == message,
        line_again == line,
    ensures
        commit_verdict(branch_again, message_again) == commit_verdict(branch, message),
        push_verdict(branch_again, line_again) == push_verdict(branch, line),
{
}

} // verus!
