//! Dependency requirement strings: parsing a requirement into a name and an
//! optional version constraint, formatting it back, and the normalized name
//! key under which two requirements count as the same dependency.

use vstd::prelude::*;
use vstd::string::*;

use crate::errors::HuakError;

verus! {

/// Does a version-comparison operator (`==`, `>=`, `<=`, `>`, `<`, `~=`,
/// `!=`) start at index `i` of `s`?
pub open spec fn is_op_start(s: Seq<char>, i: int) -> bool {
    s[i] == '>' || s[i] == '<' || ((s[i] == '=' || s[i] == '~' || s[i] == '!') && i + 1 < s.len()
        && s[i + 1] == '=')
}

/// Index of the first version-comparison operator at or after `i`, if any.
pub open spec fn find_op(s: Seq<char>, i: int) -> Option<int>
    decreases s.len() - i,
{
    if i < 0 || i >= s.len() {
        None
    } else if is_op_start(s, i) {
        Some(i)
    } else {
        find_op(s, i + 1)
    }
}

pub proof fn lemma_find_op_bounds(s: Seq<char>, i: int)
    requires
        0 <= i,
    ensures
        find_op(s, i) matches Some(k) ==> i <= k < s.len() && is_op_start(s, k),
    decreases s.len() - i,
{
    if i < s.len() && !is_op_start(s, i) {
        lemma_find_op_bounds(s, i + 1);
    }
}

/// The name portion of a requirement string: everything before the first
/// version-comparison operator, or the whole string.
pub open spec fn dep_name(s: Seq<char>) -> Seq<char> {
    match find_op(s, 0) {
        Some(k) => s.subrange(0, k),
        None => s,
    }
}

/// The constraint portion of a requirement string: everything from the first
/// version-comparison operator on, verbatim.
pub open spec fn dep_constraint(s: Seq<char>) -> Option<Seq<char>> {
    match find_op(s, 0) {
        Some(k) => Some(s.subrange(k, s.len() as int)),
        None => None,
    }
}

/// ASCII lowercase of one character.
pub open spec fn spec_lower(c: char) -> char {
    if c == 'A' { 'a' } else if c == 'B' { 'b' } else if c == 'C' { 'c' }
    else if c == 'D' { 'd' } else if c == 'E' { 'e' } else if c == 'F' { 'f' }
    else if c == 'G' { 'g' } else if c == 'H' { 'h' } else if c == 'I' { 'i' }
    else if c == 'J' { 'j' } else if c == 'K' { 'k' } else if c == 'L' { 'l' }
    else if c == 'M' { 'm' } else if c == 'N' { 'n' } else if c == 'O' { 'o' }
    else if c == 'P' { 'p' } else if c == 'Q' { 'q' } else if c == 'R' { 'r' }
    else if c == 'S' { 's' } else if c == 'T' { 't' } else if c == 'U' { 'u' }
    else if c == 'V' { 'v' } else if c == 'W' { 'w' } else if c == 'X' { 'x' }
    else if c == 'Y' { 'y' } else if c == 'Z' { 'z' } else { c }
}

/// A name-separator character: `-`, `_` or `.`.
pub open spec fn is_sep(c: char) -> bool {
    c == '-' || c == '_' || c == '.'
}

/// Normalization walk: lowercase every character and collapse each run of
/// separators to a single `-`. `prev_sep` records whether the previous
/// character was part of a separator run.
pub open spec fn norm_from(s: Seq<char>, i: int, prev_sep: bool) -> Seq<char>
    decreases s.len() - i,
{
    if i < 0 || i >= s.len() {
        Seq::empty()
    } else if is_sep(s[i]) {
        if prev_sep {
            norm_from(s, i + 1, true)
        } else {
            seq!['-'] + norm_from(s, i + 1, true)
        }
    } else {
        seq![spec_lower(s[i])] + norm_from(s, i + 1, false)
    }
}

/// The normalized comparison key of a package name.
pub open spec fn normalize_key(s: Seq<char>) -> Seq<char> {
    norm_from(s, 0, false)
}

/// The comparison key of a whole requirement string: the normalized name
/// portion.
pub open spec fn dep_key(s: Seq<char>) -> Seq<char> {
    normalize_key(dep_name(s))
}

/// ASCII lowercase of one character.
fn lower_char(c: char) -> (r: char)
    ensures
        r == spec_lower(c),
{
    match c {
        'A' => 'a', 'B' => 'b', 'C' => 'c', 'D' => 'd', 'E' => 'e', 'F' => 'f',
        'G' => 'g', 'H' => 'h', 'I' => 'i', 'J' => 'j', 'K' => 'k', 'L' => 'l',
        'M' => 'm', 'N' => 'n', 'O' => 'o', 'P' => 'p', 'Q' => 'q', 'R' => 'r',
        'S' => 's', 'T' => 't', 'U' => 'u', 'V' => 'v', 'W' => 'w', 'X' => 'x',
        'Y' => 'y', 'Z' => 'z', _ => c,
    }
}

/// Computes the normalized comparison key of a package name.
pub fn normalized_key(s: &str) -> (r: Vec<char>)
    ensures
        r@ == normalize_key(s@),
{
    let n = s.unicode_len();
    let mut out: Vec<char> = Vec::new();
    let mut prev_sep = false;
    let mut i: usize = 0;
    while i < n
        invariant
            i <= n,
            n == s@.len(),
            normalize_key(s@) == out@ + norm_from(s@, i as int, prev_sep),
        decreases n - i,
    {
        let c = s.get_char(i);
        if c == '-' || c == '_' || c == '.' {
            if !prev_sep {
                out.push('-');
            }
            prev_sep = true;
        } else {
            out.push(lower_char(c));
            prev_sep = false;
        }
        i = i + 1;
    }
    out
}

/// Compares two normalized keys.
pub fn key_eq(a: &Vec<char>, b: &Vec<char>) -> (r: bool)
    ensures
        r == (a@ == b@),
{
    if a.len() != b.len() {
        return false;
    }
    let mut i: usize = 0;
    while i < a.len()
        invariant
            i <= a@.len(),
            a@.len() == b@.len(),
            forall|j: int| 0 <= j < i ==> a@[j] == b@[j],
        decreases a@.len() - i,
    {
        if a[i] != b[i] {
            return false;
        }
        i = i + 1;
    }
    proof {
        assert(a@ =~= b@);
    }
    true
}

/// A parsed dependency requirement: a package name, an optional version
/// constraint kept verbatim, and an optional dependency-group name.
#[derive(Clone, Debug)]
pub struct DependencySpecifier {
    pub name: String,
    pub constraint: Option<String>,
    pub group: Option<String>,
}

/// Mathematical value of a [`DependencySpecifier`].
#[verifier::ext_equal]
pub struct DependencySpecifierV {
    pub name: Seq<char>,
    pub constraint: Option<Seq<char>>,
    pub group: Option<Seq<char>>,
}

impl View for DependencySpecifier {
    type V = DependencySpecifierV;

    open spec fn view(&self) -> DependencySpecifierV {
        DependencySpecifierV {
            name: self.name@,
            constraint: self.constraint.deep_view(),
            group: self.group.deep_view(),
        }
    }
}

/// What parsing a requirement string yields: `None` when the name portion is
/// empty, otherwise the name and constraint split at the first operator.
pub open spec fn spec_parse_dep(s: Seq<char>) -> Option<DependencySpecifierV> {
    if dep_name(s).len() == 0 {
        None
    } else {
        Some(
            DependencySpecifierV { name: dep_name(s), constraint: dep_constraint(s), group: None },
        )
    }
}

/// The requirement string a specifier formats to: name, then constraint.
pub open spec fn spec_format_dep(d: DependencySpecifierV) -> Seq<char> {
    d.name + (match d.constraint {
        Some(c) => c,
        None => Seq::empty(),
    })
}

impl DependencySpecifier {
    /// Splits a requirement string at the first version-comparison operator.
    /// Fails with `InvalidSpecifierError` exactly when the name portion is
    /// empty; the group is left unset.
    pub fn parse(s: &str) -> (r: Result<DependencySpecifier, HuakError>)
        ensures
            match spec_parse_dep(s@) {
                Some(d) => r matches Ok(x) && x@ == d,
                None => r matches Err(HuakError::InvalidSpecifierError),
            },
    {
        let n = s.unicode_len();
        let mut i: usize = 0;
        while i < n
            invariant
                i <= n,
                n == s@.len(),
                find_op(s@, 0) == find_op(s@, i as int),
            decreases n - i,
        {
            let c = s.get_char(i);
            let op_here = if c == '>' || c == '<' {
                true
            } else if (c == '=' || c == '~' || c == '!') && i + 1 < n {
                s.get_char(i + 1) == '='
            } else {
                false
            };
            if op_here {
                if i == 0 {
                    return Err(HuakError::InvalidSpecifierError);
                }
                let name = s.substring_char(0, i).to_owned();
                let constraint = s.substring_char(i, n).to_owned();
                return Ok(DependencySpecifier { name, constraint: Some(constraint), group: None });
            }
            i = i + 1;
        }
        if n == 0 {
            return Err(HuakError::InvalidSpecifierError);
        }
        Ok(DependencySpecifier { name: s.to_owned(), constraint: None, group: None })
    }

    /// Formats the requirement string back: name, then constraint verbatim.
    pub fn format(&self) -> (r: String)
        ensures
            r@ == spec_format_dep(self@),
    {
        let mut out = String::from_str(self.name.as_str());
        match &self.constraint {
            Some(c) => {
                out.append(c.as_str());
            },
            None => {
                proof {
                    assert(out@ =~= spec_format_dep(self@));
                }
            },
        }
        out
    }

    /// The normalized comparison key of this specifier's name.
    pub fn key(&self) -> (r: Vec<char>)
        ensures
            r@ == normalize_key(self@.name),
    {
        normalized_key(self.name.as_str())
    }
}

/// A formatted specifier parses back to the specifier itself: the name and
/// constraint round-trip, provided the name holds no operator character and
/// the constraint, if present, starts with one.
pub proof fn lemma_dep_round_trip(d: DependencySpecifierV)
    requires
        d.name.len() > 0,
        forall|i: int| 0 <= i < d.name.len() ==> !is_op_start(spec_format_dep(d), i),
        d.constraint matches Some(c) ==> c.len() > 0 && is_op_start(spec_format_dep(d), d.name.len() as int),
        d.group is None,
    ensures
        spec_parse_dep(spec_format_dep(d)) == Some(d),
{
    let s = spec_format_dep(d);
    match d.constraint {
        Some(c) => {
            lemma_find_op_from(s, 0, d.name.len() as int);
            assert(find_op(s, 0) == Some(d.name.len() as int));
            assert(dep_name(s) =~= d.name);
            assert(dep_constraint(s) matches Some(cc) && cc =~= c);
        },
        None => {
            assert(s =~= d.name);
            lemma_find_op_none(s, 0);
            assert(dep_name(s) == s);
        },
    }
}

/// If no operator starts before `k` and one starts at `k`, the first
/// operator is at `k`.
proof fn lemma_find_op_from(s: Seq<char>, i: int, k: int)
    requires
        0 <= i <= k < s.len(),
        forall|j: int| i <= j < k ==> !is_op_start(s, j),
        is_op_start(s, k),
    ensures
        find_op(s, i) == Some(k),
    decreases k - i,
{
    if i < k {
        lemma_find_op_from(s, i + 1, k);
    }
}

/// If no operator starts anywhere at or after `i`, there is none to find.
proof fn lemma_find_op_none(s: Seq<char>, i: int)
    requires
        0 <= i,
        forall|j: int| i <= j < s.len() ==> !is_op_start(s, j),
    ensures
        find_op(s, i) is None,
    decreases s.len() - i,
{
    if i < s.len() {
        lemma_find_op_none(s, i + 1);
    }
}

} // verus!
