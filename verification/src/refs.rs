//! Parsing of hook-supplied references: reduction of a fully
//! qualified ref to its short name, and the push protocol's
//! whitespace-delimited ref line.

use vstd::prelude::*;
use vstd::string::StrSliceExecFns;
use vstd::string::StringExecFns;

use crate::error::Error;

verus! {

/// Trailing-whitespace characters stripped before tokenizing.
pub open spec fn is_space_char(c: char) -> bool {
    c == ' ' || c == '\t' || c == '\n' || c == '\r'
}

/// `s` with its trailing whitespace removed.
pub open spec fn trim_end(s: Seq<char>) -> Seq<char>
    decreases s.len(),
{
    if s.len() == 0 {
        s
    } else if is_space_char(s.last()) {
        trim_end(s.drop_last())
    } else {
        s
    }
}

/// `s` split on every single space character. Consecutive spaces
/// yield empty tokens; the result always holds at least one token.
pub open spec fn split_spaces(s: Seq<char>) -> Seq<Seq<char>>
    decreases s.len(),
{
    if s.len() == 0 {
        seq![s]
    } else if s[0] == ' ' {
        seq![Seq::<char>::empty()] + split_spaces(s.drop_first())
    } else {
        let rest = split_spaces(s.drop_first());
        seq![seq![s[0]] + rest[0]] + rest.drop_first()
    }
}

/// The last path segment of `s`: the suffix after the final `/`, or
/// all of `s` when it holds no `/`.
pub open spec fn base_name_of(s: Seq<char>) -> Seq<char>
    decreases s.len(),
{
    if s.len() == 0 {
        s
    } else if s.last() == '/' {
        Seq::<char>::empty()
    } else {
        base_name_of(s.drop_last()).push(s.last())
    }
}

/// Whether the push-protocol line `s` is well formed: after trailing
/// whitespace is stripped, splitting on spaces yields at least the
/// four tokens `<local-ref> <local-sha> <remote-ref> <remote-sha>`.
pub open spec fn ref_line_ok(s: Seq<char>) -> bool {
    split_spaces(trim_end(s)).len() >= 4
}

/// The local short branch name carried by the line: the last path
/// segment of the first token.
pub open spec fn local_short_name(s: Seq<char>) -> Seq<char> {
    base_name_of(split_spaces(trim_end(s))[0])
}

/// The remote short branch name carried by the line: the last path
/// segment of the third token.
pub open spec fn remote_short_name(s: Seq<char>) -> Seq<char> {
    base_name_of(split_spaces(trim_end(s))[2])
}

proof fn lemma_split_spaces_len(s: Seq<char>)
    ensures
        split_spaces(s).len() >= 1,
    decreases s.len(),
{
    if s.len() == 0 {
    } else if s[0] == ' ' {
        lemma_split_spaces_len(s.drop_first())
    } else {
        lemma_split_spaces_len(s.drop_first())
    }
}

proof fn lemma_base_name_suffix(s: Seq<char>, k: int)
    requires
        0 <= k <= s.len(),
        forall|j: int| k <= j < s.len() ==> s[j] != '/',
        k > 0 ==> s[k - 1] == '/',
    ensures
        base_name_of(s) == s.subrange(k, s.len() as int),
    decreases s.len(),
{
    if s.len() == 0 {
        assert(s =~= s.subrange(0, 0));
    } else if k == s.len() {
        assert(s.last() == '/');
        assert(Seq::<char>::empty() =~= s.subrange(k, s.len() as int));
    } else {
        assert(s.last() != '/');
        lemma_base_name_suffix(s.drop_last(), k);
        assert(base_name_of(s.drop_last()).push(s.last()) =~= s.subrange(k, s.len() as int));
    }
}

proof fn lemma_trim_end_pinned(s: Seq<char>, m: int)
    requires
        0 <= m <= s.len(),
        forall|j: int| m <= j < s.len() ==> is_space_char(s[j]),
        m > 0 ==> !is_space_char(s[m - 1]),
    ensures
        trim_end(s) == s.subrange(0, m),
    decreases s.len(),
{
    if s.len() == 0 {
        assert(s =~= s.subrange(0, 0));
    } else if m == s.len() {
        assert(!is_space_char(s.last()));
        assert(s =~= s.subrange(0, m));
    } else {
        assert(is_space_char(s.last()));
        lemma_trim_end_pinned(s.drop_last(), m);
        assert(s.drop_last().subrange(0, m) =~= s.subrange(0, m));
    }
}

proof fn lemma_split_spaces_head(s: Seq<char>, i: int)
    requires
        0 <= i <= s.len(),
        forall|j: int| 0 <= j < i ==> s[j] != ' ',
        i < s.len() ==> s[i] == ' ',
        i == s.len() ==> forall|j: int| 0 <= j < s.len() ==> s[j] != ' ',
    ensures
        i == s.len() ==> split_spaces(s) == seq![s],
        i < s.len() ==> split_spaces(s) == seq![s.subrange(0, i)] + split_spaces(
            s.subrange(i + 1, s.len() as int),
        ),
    decreases s.len(),
{
    if s.len() == 0 {
        assert(seq![s] =~= seq![s]);
    } else if s[0] == ' ' {
        assert(i == 0);
        assert(s.subrange(0, 0) =~= Seq::<char>::empty());
        assert(s.drop_first() =~= s.subrange(1, s.len() as int));
        assert(seq![Seq::<char>::empty()] + split_spaces(s.drop_first()) =~= seq![
            s.subrange(0, 0),
        ] + split_spaces(s.subrange(1, s.len() as int)));
    } else {
        let d = s.drop_first();
        lemma_split_spaces_head(d, i - 1);
        lemma_split_spaces_len(d);
        let rest = split_spaces(d);
        if i == s.len() {
            assert(rest == seq![d]);
            assert(seq![seq![s[0]] + rest[0]] + rest.drop_first() =~= seq![s]) by {
                assert(seq![s[0]] + d =~= s);
                assert(rest.drop_first() =~= Seq::<Seq<char>>::empty());
            }
        } else {
            assert(rest == seq![d.subrange(0, i - 1)] + split_spaces(
                d.subrange(i, d.len() as int),
            ));
            assert(seq![s[0]] + rest[0] =~= s.subrange(0, i)) by {
                assert(rest[0] == d.subrange(0, i - 1));
                assert(forall|j: int| 1 <= j < i ==> d.subrange(0, i - 1)[j - 1] == s[j]);
            }
            assert(d.subrange(i, d.len() as int) =~= s.subrange(i + 1, s.len() as int));
            assert(rest.drop_first() =~= split_spaces(s.subrange(i + 1, s.len() as int))) by {
                assert(rest.len() == 1 + split_spaces(d.subrange(i, d.len() as int)).len());
            }
            assert(seq![seq![s[0]] + rest[0]] + rest.drop_first() =~= seq![s.subrange(0, i)]
                + split_spaces(s.subrange(i + 1, s.len() as int)));
        }
    }
}

fn space_at(s: &str, i: usize) -> (b: bool)
    requires
        i < s@.len(),
    ensures
        b == is_space_char(s@[i as int]),
{
    let c = s.get_char(i);
    c == ' ' || c == '\t' || c == '\n' || c == '\r'
}

fn sep_at(s: &str, i: usize) -> (b: bool)
    requires
        i < s@.len(),
    ensures
        b == (s@[i as int] == ' '),
{
    s.get_char(i) == ' '
}

fn trim_end_exec(s: &str) -> (r: &str)
    ensures
        r@ == trim_end(s@),
{
    let n = s.unicode_len();
    let mut m: usize = n;
    while m > 0 && space_at(s, m - 1)
        invariant
            n == s@.len(),
            m <= n,
            forall|j: int| m <= j < n ==> is_space_char(s@[j]),
        decreases m,
    {
        m = m - 1;
    }
    proof {
        lemma_trim_end_pinned(s@, m as int);
    }
    s.substring_char(0, m)
}

fn split_spaces_exec(s: &str) -> (r: Vec<String>)
    ensures
        r@.len() == split_spaces(s@).len(),
        forall|i: int| 0 <= i < r@.len() ==> r@[i]@ == split_spaces(s@)[i],
    decreases s@.len(),
{
    let n = s.unicode_len();
    let mut i: usize = 0;
    while i < n && !sep_at(s, i)
        invariant
            n == s@.len(),
            i <= n,
            forall|j: int| 0 <= j < i ==> s@[j] != ' ',
        decreases n - i,
    {
        i = i + 1;
    }
    proof {
        lemma_split_spaces_head(s@, i as int);
    }
    if i == n {
        let mut out: Vec<String> = Vec::new();
        out.push(String::from_str(s));
        out
    } else {
        let head = s.substring_char(0, i);
        let tail = s.substring_char(i + 1, n);
        let mut rest = split_spaces_exec(tail);
        let mut out: Vec<String> = Vec::new();
        out.push(String::from_str(head));
        out.append(&mut rest);
        out
    }
}

/// The last path segment of `path`: everything after the final `/`,
/// or all of `path` when it holds none. Splitting always yields at
/// least one (possibly empty) part, so the result is always `Ok`.
pub fn base_name(path: &str) -> (r: Result<&str, Error>)
    ensures
        r is Ok,
        r matches Ok(b) ==> b@ == base_name_of(path@),
{
    let n = path.unicode_len();
    let mut k: usize = n;
    while k > 0 && path.get_char(k - 1) != '/'
        invariant
            n == path@.len(),
            k <= n,
            forall|j: int| k <= j < n ==> path@[j] != '/',
        decreases k,
    {
        k = k - 1;
    }
    proof {
        lemma_base_name_suffix(path@, k as int);
    }
    Ok(path.substring_char(k, n))
}

/// Parses the push hook's ref line `<local-ref> <local-sha>
/// <remote-ref> <remote-sha>` into the local and remote short branch
/// names. Trailing whitespace is stripped and the line is split on
/// single spaces; at least four tokens are required (any further ones
/// are ignored) and the first and third are reduced to their last
/// path segment. A shorter line is `Missing` data.
pub fn parse_refs(s: &str) -> (r: Result<(String, String), Error>)
    ensures
        (r is Ok) == ref_line_ok(s@),
        r matches Ok(p) ==> p.0@ == local_short_name(s@) && p.1@ == remote_short_name(s@),
        r matches Err(e) ==> e is Missing,
{
    let trimmed = trim_end_exec(s);
    let refs = split_spaces_exec(trimmed);
    if refs.len() < 4 {
        return Err(Error::Missing("parse_refs"));
    }
    let local = match base_name(refs[0].as_str()) {
        Ok(v) => v,
        Err(e) => {
            return Err(e);
        },
    };
    let remote = match base_name(refs[2].as_str()) {
        Ok(v) => v,
        Err(e) => {
            return Err(e);
        },
    };
    Ok((String::from_str(local), String::from_str(remote)))
}

} // verus!
