//! Verified character-level helpers over `&str` and `String`: scanning for a
//! character, trimming whitespace, and reading the quoted-string and
//! inline-array shapes that the manifest format uses.

use vstd::prelude::*;
use vstd::string::*;

verus! {

/// Whitespace that the manifest format ignores around tokens.
pub open spec fn is_ws(c: char) -> bool {
    c == ' ' || c == '\t' || c == '\r'
}

/// Index of the first occurrence of `c` in `s` at or after `i`, if any.
pub open spec fn spec_find(s: Seq<char>, i: int, c: char) -> Option<int>
    decreases s.len() - i,
{
    if i < 0 || i >= s.len() {
        None
    } else if s[i] == c {
        Some(i)
    } else {
        spec_find(s, i + 1, c)
    }
}

pub proof fn lemma_spec_find_bounds(s: Seq<char>, i: int, c: char)
    requires
        0 <= i,
    ensures
        spec_find(s, i, c) matches Some(k) ==> i <= k < s.len() && s[k] == c,
    decreases s.len() - i,
{
    if i < s.len() && s[i] != c {
        lemma_spec_find_bounds(s, i + 1, c);
    }
}

/// Index of the first non-whitespace character at or after `i` (or the end).
pub open spec fn first_non_ws(s: Seq<char>, i: int) -> int
    decreases s.len() - i,
{
    if i < 0 || i >= s.len() {
        i
    } else if is_ws(s[i]) {
        first_non_ws(s, i + 1)
    } else {
        i
    }
}

pub proof fn lemma_first_non_ws_bounds(s: Seq<char>, i: int)
    requires
        0 <= i <= s.len(),
    ensures
        i <= first_non_ws(s, i) <= s.len(),
    decreases s.len() - i,
{
    if i < s.len() && is_ws(s[i]) {
        lemma_first_non_ws_bounds(s, i + 1);
    }
}

/// End of `s.subrange(0, j)` with trailing whitespace removed.
pub open spec fn trim_end_idx(s: Seq<char>, j: int) -> int
    decreases j,
{
    if j <= 0 || j > s.len() {
        0
    } else if is_ws(s[j - 1]) {
        trim_end_idx(s, j - 1)
    } else {
        j
    }
}

pub proof fn lemma_trim_end_idx_bounds(s: Seq<char>, j: int)
    requires
        0 <= j <= s.len(),
    ensures
        0 <= trim_end_idx(s, j) <= j,
    decreases j,
{
    if 0 < j && is_ws(s[j - 1]) {
        lemma_trim_end_idx_bounds(s, j - 1);
    }
}

/// `s` with leading and trailing whitespace removed.
pub open spec fn spec_trim(s: Seq<char>) -> Seq<char> {
    let a = first_non_ws(s, 0);
    let b = trim_end_idx(s, s.len() as int);
    if a < b {
        s.subrange(a, b)
    } else {
        Seq::empty()
    }
}

/// Finds the first occurrence of `c` in `s` at or after `from`.
pub fn find_char(s: &str, from: usize, c: char) -> (r: Option<usize>)
    requires
        from <= s@.len(),
    ensures
        r matches Some(k) ==> spec_find(s@, from as int, c) == Some(k as int),
        r is None ==> spec_find(s@, from as int, c) is None,
{
    let n = s.unicode_len();
    let mut i = from;
    while i < n
        invariant
            n == s@.len(),
            from <= i <= n,
            spec_find(s@, from as int, c) == spec_find(s@, i as int, c),
        decreases n - i,
    {
        if s.get_char(i) == c {
            return Some(i);
        }
        i = i + 1;
    }
    None
}

/// Skips whitespace in `s` starting at `from`.
pub fn skip_ws(s: &str, from: usize) -> (r: usize)
    requires
        from <= s@.len(),
    ensures
        r as int == first_non_ws(s@, from as int),
        from <= r <= s@.len(),
{
    let n = s.unicode_len();
    let mut i = from;
    while i < n
        invariant
            n == s@.len(),
            from <= i <= n,
            first_non_ws(s@, from as int) == first_non_ws(s@, i as int),
        decreases n - i,
    {
        if !(s.get_char(i) == ' ' || s.get_char(i) == '\t' || s.get_char(i) == '\r') {
            return i;
        }
        i = i + 1;
    }
    n
}

/// Trims leading and trailing whitespace from `s`.
pub fn trim_str(s: &str) -> (r: String)
    ensures
        r@ == spec_trim(s@),
{
    let n = s.unicode_len();
    let a = skip_ws(s, 0);
    let mut b = n;
    while b > 0
        invariant_except_break
            b <= n,
            n == s@.len(),
            trim_end_idx(s@, n as int) == trim_end_idx(s@, b as int),
        ensures
            b <= n,
            n == s@.len(),
            b as int == trim_end_idx(s@, n as int),
        decreases b,
    {
        let c = s.get_char(b - 1);
        if !(c == ' ' || c == '\t' || c == '\r') {
            break;
        }
        b = b - 1;
    }
    if a < b {
        s.substring_char(a, b).to_owned()
    } else {
        let r = String::new();
        proof {
            assert(r@ =~= spec_trim(s@));
        }
        r
    }
}

/// Compares two string slices by their character sequences.
pub fn str_eq(a: &str, b: &str) -> (r: bool)
    ensures
        r == (a@ == b@),
{
    let sa = a.to_owned();
    let sb = b.to_owned();
    sa == sb
}

} // verus!
