//! Character-level helpers shared by the status-report parser and the
//! policy evaluator: whitespace scanning, prefix tests and string equality.

use vstd::prelude::*;

verus! {

/// The whitespace that separates tokens of a status line: space, tab, and
/// the carriage return that a CRLF line ending leaves behind.
pub open spec fn is_ws(c: char) -> bool {
    c == ' ' || c == '\t' || c == '\r'
}

/// `p` is a prefix of `s`.
pub open spec fn has_prefix(s: Seq<char>, p: Seq<char>) -> bool {
    p.len() <= s.len() && s.subrange(0, p.len() as int) == p
}

/// The first index at or after `i` holding a non-whitespace character,
/// or the length of `s` when only whitespace remains.
pub open spec fn skip_ws(s: Seq<char>, i: int) -> int
    decreases s.len() - i,
{
    if i < 0 || i >= s.len() {
        s.len() as int
    } else if is_ws(s[i]) {
        skip_ws(s, i + 1)
    } else {
        i
    }
}

/// The first index at or after `i` holding a whitespace character,
/// or the length of `s` when the token runs to the end.
pub open spec fn skip_token(s: Seq<char>, i: int) -> int
    decreases s.len() - i,
{
    if i < 0 || i >= s.len() {
        s.len() as int
    } else if !is_ws(s[i]) {
        skip_token(s, i + 1)
    } else {
        i
    }
}

/// `skip_ws` lands exactly on the first non-whitespace index.
pub proof fn lemma_skip_ws_at(s: Seq<char>, i: int, j: int)
    requires
        0 <= i <= j <= s.len(),
        forall|k: int| i <= k < j ==> is_ws(s[k]),
        j == s.len() || !is_ws(s[j]),
    ensures
        skip_ws(s, i) == j,
    decreases j - i,
{
    if i < j {
        lemma_skip_ws_at(s, i + 1, j);
    }
}

/// `skip_token` lands exactly on the first whitespace index.
pub proof fn lemma_skip_token_at(s: Seq<char>, i: int, j: int)
    requires
        0 <= i <= j <= s.len(),
        forall|k: int| i <= k < j ==> !is_ws(s[k]),
        j == s.len() || is_ws(s[j]),
    ensures
        skip_token(s, i) == j,
    decreases j - i,
{
    if i < j {
        lemma_skip_token_at(s, i + 1, j);
    }
}

/// Whether `c` separates tokens of a status line.
pub fn is_ws_char(c: char) -> (r: bool)
    ensures
        r == is_ws(c),
{
    c == ' ' || c == '\t' || c == '\r'
}

/// Whether two string slices hold the same characters.
pub fn str_eq(a: &str, b: &str) -> (r: bool)
    ensures
        r == (a@ == b@),
{
    let n = a.unicode_len();
    if n != b.unicode_len() {
        return false;
    }
    let mut j: usize = 0;
    while j < n
        invariant
            j <= n,
            n == a@.len(),
            n == b@.len(),
            forall|k: int| 0 <= k < j ==> a@[k] == b@[k],
        decreases n - j,
    {
        if a.get_char(j) != b.get_char(j) {
            return false;
        }
        j += 1;
    }
    proof {
        assert(a@ =~= b@);
    }
    true
}

/// Whether the characters of `s` from position `i` on start with `p`.
pub fn has_prefix_from(s: &str, i: usize, p: &str) -> (r: bool)
    requires
        i <= s@.len(),
    ensures
        r == has_prefix(s@.skip(i as int), p@),
{
    let n = s.unicode_len();
    let m = p.unicode_len();
    if n - i < m {
        return false;
    }
    let mut j: usize = 0;
    while j < m
        invariant
            j <= m,
            m == p@.len(),
            n == s@.len(),
            i + m <= n,
            forall|k: int| 0 <= k < j ==> s@[i + k] == p@[k],
        decreases m - j,
    {
        if s.get_char(i + j) != p.get_char(j) {
            proof {
                assert(s@.skip(i as int)[j as int] == s@[i + j]);
                assert(s@.skip(i as int).subrange(0, m as int)[j as int] != p@[j as int]);
            }
            return false;
        }
        j += 1;
    }
    proof {
        assert(s@.skip(i as int).subrange(0, m as int) =~= p@);
    }
    true
}

/// Scans whitespace: the first non-whitespace position at or after `i`.
pub fn scan_ws(s: &str, i: usize) -> (j: usize)
    requires
        i <= s@.len(),
    ensures
        j == skip_ws(s@, i as int),
        i <= j <= s@.len(),
        j < s@.len() ==> !is_ws(s@[j as int]),
        forall|k: int| i <= k < j ==> is_ws(s@[k]),
{
    let n = s.unicode_len();
    let mut j = i;
    while j < n
        invariant
            i <= j <= n,
            n == s@.len(),
            forall|k: int| i <= k < j ==> is_ws(s@[k]),
        ensures
            i <= j <= n,
            forall|k: int| i <= k < j ==> is_ws(s@[k]),
            j == n || !is_ws(s@[j as int]),
        decreases n - j,
    {
        if !is_ws_char(s.get_char(j)) {
            break;
        }
        j += 1;
    }
    proof {
        lemma_skip_ws_at(s@, i as int, j as int);
    }
    j
}

/// Scans a token: the first whitespace position at or after `i`.
pub fn scan_token(s: &str, i: usize) -> (j: usize)
    requires
        i <= s@.len(),
    ensures
        j == skip_token(s@, i as int),
        i <= j <= s@.len(),
        j < s@.len() ==> is_ws(s@[j as int]),
        forall|k: int| i <= k < j ==> !is_ws(s@[k]),
{
    let n = s.unicode_len();
    let mut j = i;
    while j < n
        invariant
            i <= j <= n,
            n == s@.len(),
            forall|k: int| i <= k < j ==> !is_ws(s@[k]),
        ensures
            i <= j <= n,
            forall|k: int| i <= k < j ==> !is_ws(s@[k]),
            j == n || is_ws(s@[j as int]),
        decreases n - j,
    {
        if is_ws_char(s.get_char(j)) {
            break;
        }
        j += 1;
    }
    proof {
        lemma_skip_token_at(s@, i as int, j as int);
    }
    j
}

} // verus!
