//! Policy checks for git hooks that tie branches and commits to a
//! ticket identifier.
//!
//! The library is the pure core of a two-hook guard: a commit-time
//! check (no commits on `master`, the branch carries a ticket
//! identifier, the commit message references it) and a push-time
//! check (local and remote branch names agree and reference the
//! ticket). Everything here is validation logic over plain strings;
//! reading files, standard input and the current branch, and turning
//! verdicts into exit codes, is left to the surrounding program.

pub mod error;
pub mod hooks;
pub mod matchers;
pub mod refs;
