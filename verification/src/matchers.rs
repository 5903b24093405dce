//! Stateless pattern matchers over strings: anchored equality, literal
//! prefix testing, and extraction of the leading ticket identifier.

use vstd::prelude::*;
use vstd::string::StrSliceExecFns;

use crate::error::Error;

verus! {

/// Anchored-both-ends match: `s` equals `pattern` in its entirety.
pub open spec fn matches_exactly(s: Seq<char>, pattern: Seq<char>) -> bool {
    s == pattern
}

/// A word character, as the ticket pattern understands it: an ASCII
/// letter, an ASCII digit or an underscore.
pub open spec fn is_word_char(c: char) -> bool {
    ('a' as u32 <= c as u32 && c as u32 <= 'z' as u32)
        || ('A' as u32 <= c as u32 && c as u32 <= 'Z' as u32)
        || is_digit_char(c)
        || c == '_'
}

/// An ASCII decimal digit.
pub open spec fn is_digit_char(c: char) -> bool {
    '0' as u32 <= c as u32 && c as u32 <= '9' as u32
}

/// Whether `s` starts with a ticket identifier: exactly two word
/// characters, a hyphen, then at least one digit.
pub open spec fn has_ticket(s: Seq<char>) -> bool {
    s.len() >= 4 && is_word_char(s[0]) && is_word_char(s[1]) && s[2] == '-' && is_digit_char(s[3])
}

/// The first position at or after `i` that does not hold a digit
/// (`s.len()` if digits run to the end).
pub open spec fn digit_run_end(s: Seq<char>, i: int) -> int
    decreases s.len() - i,
{
    if i < 0 || i >= s.len() {
        s.len() as int
    } else if !is_digit_char(s[i]) {
        i
    } else {
        digit_run_end(s, i + 1)
    }
}

/// The ticket identifier at the head of `s`: the two word characters,
/// the hyphen, and the full run of digits that follows (greedy, as the
/// anchored pattern captures it). Meaningful when `has_ticket(s)`.
pub open spec fn ticket_of(s: Seq<char>) -> Seq<char> {
    s.subrange(0, digit_run_end(s, 3))
}

/// Whether `s` equals `c` in its entirety (anchored at both ends).
///
/// The comparison is literal, character for character; `c` is never
/// interpreted as a pattern, so it cannot fail to compile and the
/// result is always `Ok`.
pub fn string_matches(s: &str, c: &str) -> (r: Result<bool, Error>)
    ensures
        r == Result::<bool, Error>::Ok(matches_exactly(s@, c@)),
{
    let n = s.unicode_len();
    let m = c.unicode_len();
    if n != m {
        return Ok(false);
    }
    let mut i: usize = 0;
    while i < n
        invariant
            n == s@.len(),
            n == c@.len(),
            i <= n,
            forall|j: int| 0 <= j < i ==> s@[j] == c@[j],
        decreases n - i,
    {
        if s.get_char(i) != c.get_char(i) {
            return Ok(false);
        }
        i = i + 1;
    }
    proof {
        assert(s@ =~= c@);
    }
    Ok(true)
}

/// Whether `s` begins with the literal prefix `c`.
///
/// `c` is compared character for character, never interpreted as a
/// pattern, so metacharacters in it carry no meaning and the check
/// always succeeds with a boolean.
pub fn string_starts_with(s: &str, c: &str) -> (r: Result<bool, Error>)
    ensures
        r == Result::<bool, Error>::Ok(c@.is_prefix_of(s@)),
{
    let n = s.unicode_len();
    let m = c.unicode_len();
    if m > n {
        return Ok(false);
    }
    let mut i: usize = 0;
    while i < m
        invariant
            n == s@.len(),
            m == c@.len(),
            m <= n,
            i <= m,
            forall|j: int| 0 <= j < i ==> s@[j] == c@[j],
        decreases m - i,
    {
        if s.get_char(i) != c.get_char(i) {
            proof {
                assert(!c@.is_prefix_of(s@)) by {
                    if c@.is_prefix_of(s@) {
                        assert(c@[i as int] == s@.subrange(0, m as int)[i as int]);
                    }
                }
            }
            return Ok(false);
        }
        i = i + 1;
    }
    proof {
        assert(c@ =~= s@.subrange(0, m as int));
    }
    Ok(true)
}

/// Exact equality is reflexive, and growing a string by one character
/// always breaks it: `matchesExactly(s, s)` holds for every `s`, while
/// `matchesExactly(s, s + "x")` never does.
pub proof fn lemma_matches_exactly_anchored(s: Seq<char>)
    ensures
        matches_exactly(s, s),
        !matches_exactly(s, s.push('x')),
{
    assert(s.push('x').len() == s.len() + 1);
}

fn word_char(c: char) -> (b: bool)
    ensures
        b == is_word_char(c),
{
    let n = c as u32;
    ('a' as u32 <= n && n <= 'z' as u32) || ('A' as u32 <= n && n <= 'Z' as u32)
        || ('0' as u32 <= n && n <= '9' as u32) || n == '_' as u32
}

fn digit_char(c: char) -> (b: bool)
    ensures
        b == is_digit_char(c),
{
    let n = c as u32;
    '0' as u32 <= n && n <= '9' as u32
}

fn digit_at(s: &str, i: usize) -> (b: bool)
    requires
        i < s@.len(),
    ensures
        b == is_digit_char(s@[i as int]),
{
    digit_char(s.get_char(i))
}

proof fn lemma_digit_run_end_pinned(s: Seq<char>, i: int, e: int)
    requires
        0 <= i <= e <= s.len(),
        forall|j: int| i <= j < e ==> is_digit_char(s[j]),
        e < s.len() ==> !is_digit_char(s[e]),
    ensures
        digit_run_end(s, i) == e,
    decreases e - i,
{
    if i == e {
    } else {
        lemma_digit_run_end_pinned(s, i + 1, e);
    }
}

/// The ticket identifier at the head of `branch`, if any: exactly two
/// word characters, a hyphen, then one or more digits, anchored at the
/// start. Absence of a ticket is reported as `Missing`, never as a
/// panic or a distinct error path.
pub fn jira_issue(branch: &str) -> (r: Result<&str, Error>)
    ensures
        (r is Ok) == has_ticket(branch@),
        r matches Ok(t) ==> t@ == ticket_of(branch@),
        r matches Err(e) ==> e is Missing,
{
    let n = branch.unicode_len();
    if n < 4 {
        return Err(Error::Missing("jira_issue"));
    }
    if !word_char(branch.get_char(0)) || !word_char(branch.get_char(1))
        || branch.get_char(2) != '-' || !digit_char(branch.get_char(3)) {
        return Err(Error::Missing("jira_issue"));
    }
    let mut end: usize = 4;
    while end < n && digit_at(branch, end)
        invariant
            n == branch@.len(),
            4 <= end <= n,
            forall|j: int| 3 <= j < end ==> is_digit_char(branch@[j]),
        decreases n - end,
    {
        end = end + 1;
    }
    proof {
        lemma_digit_run_end_pinned(branch@, 3, end as int);
    }
    Ok(branch.substring_char(0, end))
}

} // verus!
