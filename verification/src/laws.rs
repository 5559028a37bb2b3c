//! Laws of the dependency mutations, stated over the same spec functions
//! that the mutating methods' contracts use and proved once and for all.

use vstd::prelude::*;

use crate::dependency::{
    dep_key, is_op_start, lemma_dep_round_trip, normalize_key, spec_format_dep,
    DependencySpecifierV,
};
use crate::errors::HuakError;
use crate::manifest::{GroupV, TomlV};
use crate::ops::spec_dedup;
use crate::parse::{close_quote, spec_commit, spec_kv, spec_step, spec_str_value, unescape, ArrTargetV, PStateV, Table};
use crate::ser::{esc_char, escape, kv_line, needs_escape, quote};
use crate::text::{first_non_ws, spec_find, spec_trim, trim_end_idx};
use crate::project::{
    find_group, find_key, lemma_find_group_bounds, lemma_find_key_bounds, spec_add_dep,
    spec_add_list, spec_remove_dep, spec_remove_list, wf_list,
};

verus! {

/// Replacing index `i` with an entry of the searched key leaves the first
/// match where it was.
proof fn lemma_find_key_update_keep(
    l: Seq<Seq<char>>,
    k: Seq<char>,
    j: int,
    i: int,
    e: Seq<char>,
)
    requires
        0 <= j <= i,
        find_key(l, k, j) == Some(i),
        dep_key(e) == k,
    ensures
        find_key(l.update(i, e), k, j) == Some(i),
    decreases i - j,
{
    lemma_find_key_bounds(l, k, j);
    if j == i {
        assert(l.update(i, e)[j] == e);
    } else {
        assert(dep_key(l[j]) != k);
        assert(l.update(i, e)[j] == l[j]);
        lemma_find_key_update_keep(l, k, j + 1, i, e);
    }
}

/// Appending an entry of the searched key to a list without it makes the
/// appended entry the first match.
proof fn lemma_find_key_push_some(l: Seq<Seq<char>>, k: Seq<char>, j: int, e: Seq<char>)
    requires
        0 <= j <= l.len(),
        find_key(l, k, j) is None,
        dep_key(e) == k,
    ensures
        find_key(l.push(e), k, j) == Some(l.len() as int),
    decreases l.len() - j,
{
    if j < l.len() {
        assert(l.push(e)[j] == l[j]);
        lemma_find_key_push_some(l, k, j + 1, e);
    } else {
        assert(l.push(e)[j] == e);
    }
}

/// A list in which no entry at or after `j` carries key `k` has no match.
proof fn lemma_find_key_none(l: Seq<Seq<char>>, k: Seq<char>, j: int)
    requires
        0 <= j,
        forall|m: int| j <= m < l.len() ==> dep_key(l[m]) != k,
    ensures
        find_key(l, k, j) is None,
    decreases l.len() - j,
{
    if j < l.len() {
        lemma_find_key_none(l, k, j + 1);
    }
}

/// A group list in which no group at or after `j` is named `g` has no match.
proof fn lemma_find_group_none(gs: Seq<GroupV>, g: Seq<char>, j: int)
    requires
        0 <= j,
        forall|m: int| j <= m < gs.len() ==> gs[m].name != g,
    ensures
        find_group(gs, g, j) is None,
    decreases gs.len() - j,
{
    if j < gs.len() {
        lemma_find_group_none(gs, g, j + 1);
    }
}

/// Replacing group `i` with one of the same name leaves the first match
/// where it was.
proof fn lemma_find_group_update_keep(gs: Seq<GroupV>, g: Seq<char>, j: int, i: int, x: GroupV)
    requires
        0 <= j <= i,
        find_group(gs, g, j) == Some(i),
        x.name == gs[i].name,
    ensures
        find_group(gs.update(i, x), g, j) == Some(i),
    decreases i - j,
{
    lemma_find_group_bounds(gs, g, j);
    if j == i {
        assert(gs.update(i, x)[j] == x);
    } else {
        assert(gs[j].name != g);
        assert(gs.update(i, x)[j] == gs[j]);
        lemma_find_group_update_keep(gs, g, j + 1, i, x);
    }
}

/// Appending a group named `g` to a list without one makes it the first
/// match.
proof fn lemma_find_group_push_some(gs: Seq<GroupV>, g: Seq<char>, j: int, x: GroupV)
    requires
        0 <= j <= gs.len(),
        find_group(gs, g, j) is None,
        x.name == g,
    ensures
        find_group(gs.push(x), g, j) == Some(gs.len() as int),
    decreases gs.len() - j,
{
    if j < gs.len() {
        assert(gs.push(x)[j] == gs[j]);
        lemma_find_group_push_some(gs, g, j + 1, x);
    } else {
        assert(gs.push(x)[j] == x);
    }
}

/// Adding an entry of key `k` twice leaves the list length unchanged after
/// the second add: the second add replaces, it does not duplicate.
pub proof fn lemma_add_idempotent(l: Seq<Seq<char>>, e1: Seq<char>, e2: Seq<char>, k: Seq<char>)
    requires
        dep_key(e1) == k,
        dep_key(e2) == k,
    ensures
        spec_add_list(spec_add_list(l, e1, k), e2, k).len() == spec_add_list(l, e1, k).len(),
{
    match find_key(l, k, 0) {
        Some(i) => {
            lemma_find_key_bounds(l, k, 0);
            lemma_find_key_update_keep(l, k, 0, i, e1);
        },
        None => {
            lemma_find_key_push_some(l, k, 0, e1);
        },
    }
}

/// After a removal under key `k` succeeds on a list without duplicate keys,
/// a second removal under `k` finds nothing.
pub proof fn lemma_remove_then_absent(l: Seq<Seq<char>>, k: Seq<char>)
    requires
        wf_list(l),
    ensures
        spec_remove_list(l, k) matches Some(l2) ==> spec_remove_list(l2, k) is None,
{
    match find_key(l, k, 0) {
        Some(i) => {
            lemma_find_key_bounds(l, k, 0);
            let l2 = l.remove(i);
            assert forall|m: int| 0 <= m < l2.len() implies dep_key(l2[m]) != k by {
                if m < i {
                    assert(l2[m] == l[m]);
                } else {
                    assert(l2[m] == l[m + 1]);
                }
            }
            lemma_find_key_none(l2, k, 0);
        },
        None => {},
    }
}

/// A dependency specifier in good standing: a non-empty name in which no
/// version operator starts, and a constraint that, if present, is non-empty
/// and begins with one.
pub open spec fn wf_specifier(d: DependencySpecifierV) -> bool {
    &&& d.name.len() > 0
    &&& forall|i: int| 0 <= i < d.name.len() ==> !is_op_start(spec_format_dep(d), i)
    &&& (d.constraint matches Some(c) ==> c.len() > 0 && is_op_start(
        spec_format_dep(d),
        d.name.len() as int,
    ))
}

/// The key of a well-formed specifier's formatted requirement string is its
/// normalized name.
pub proof fn lemma_format_key(d: DependencySpecifierV)
    requires
        wf_specifier(d),
    ensures
        dep_key(spec_format_dep(d)) == normalize_key(d.name),
{
    let d0 = DependencySpecifierV { group: None, ..d };
    assert(spec_format_dep(d0) == spec_format_dep(d));
    lemma_dep_round_trip(d0);
}

/// The list a specifier's group selects, or empty when absent.
pub open spec fn the_list(t: TomlV, group: Option<Seq<char>>) -> Seq<Seq<char>> {
    match group {
        None => match t.project.dependencies {
            Some(l) => l,
            None => Seq::empty(),
        },
        Some(g) => {
            let gs = match t.project.optional_dependencies {
                Some(gs) => gs,
                None => Seq::empty(),
            };
            match find_group(gs, g, 0) {
                Some(i) => gs[i].deps,
                None => Seq::empty(),
            }
        },
    }
}

/// Idempotent add at the manifest level: adding the same well-formed
/// specifier twice leaves the target dependency list's length unchanged
/// after the second add.
pub proof fn lemma_add_dependency_idempotent(t: TomlV, d: DependencySpecifierV)
    requires
        wf_specifier(d),
    ensures
        ({
            let t1 = spec_add_dep(t, d).0;
            let t2 = spec_add_dep(t1, d).0;
            the_list(t2, d.group).len() == the_list(t1, d.group).len()
        }),
{
    let e = spec_format_dep(d);
    let k = normalize_key(d.name);
    lemma_format_key(d);
    let t1 = spec_add_dep(t, d).0;
    match d.group {
        None => {
            let l = match t.project.dependencies {
                Some(l) => l,
                None => Seq::<Seq<char>>::empty(),
            };
            let l1 = spec_add_list(l, e, k);
            assert(the_list(t1, d.group) == l1);
            match find_key(l, k, 0) {
                Some(i) => {
                    lemma_find_key_bounds(l, k, 0);
                    lemma_find_key_update_keep(l, k, 0, i, e);
                },
                None => {
                    lemma_find_key_push_some(l, k, 0, e);
                },
            }
        },
        Some(g) => {
            let gs = match t.project.optional_dependencies {
                Some(gs) => gs,
                None => Seq::<GroupV>::empty(),
            };
            match find_group(gs, g, 0) {
                Some(gi) => {
                    lemma_find_group_bounds(gs, g, 0);
                    let l = gs[gi].deps;
                    let l1 = spec_add_list(l, e, k);
                    let gs1 = gs.update(gi, GroupV { name: gs[gi].name, deps: l1 });
                    lemma_find_group_update_keep(
                        gs,
                        g,
                        0,
                        gi,
                        GroupV { name: gs[gi].name, deps: l1 },
                    );
                    assert(the_list(t1, d.group) == l1);
                    match find_key(l, k, 0) {
                        Some(i) => {
                            lemma_find_key_bounds(l, k, 0);
                            lemma_find_key_update_keep(l, k, 0, i, e);
                        },
                        None => {
                            lemma_find_key_push_some(l, k, 0, e);
                        },
                    }
                    let l2 = spec_add_list(l1, e, k);
                    lemma_find_group_update_keep(
                        gs1,
                        g,
                        0,
                        gi,
                        GroupV { name: gs1[gi].name, deps: l2 },
                    );
                },
                None => {
                    let le: Seq<Seq<char>> = seq![e];
                    lemma_find_group_push_some(gs, g, 0, GroupV { name: g, deps: le });
                    let gs1 = gs.push(GroupV { name: g, deps: le });
                    let gi = gs.len() as int;
                    assert(the_list(t1, d.group) == le);
                    assert(dep_key(le[0]) == k);
                    assert(find_key(le, k, 0) == Some(0int));
                    lemma_find_group_update_keep(
                        gs1,
                        g,
                        0,
                        gi,
                        GroupV { name: gs1[gi].name, deps: spec_add_list(le, e, k) },
                    );
                },
            }
        },
    }
}

/// Every dependency list of the manifest, and the group names themselves,
/// are free of duplicates.
pub open spec fn wf_toml(t: TomlV) -> bool {
    &&& (t.project.dependencies matches Some(l) ==> wf_list(l))
    &&& (t.project.optional_dependencies matches Some(gs) ==> {
        &&& forall|i: int| 0 <= i < gs.len() ==> wf_list(#[trigger] gs[i].deps)
        &&& forall|i: int, j: int| 0 <= i < j < gs.len() ==> gs[i].name != gs[j].name
    })
}

/// Remove-then-find at the manifest level: after a removal succeeds on a
/// manifest without duplicates, removing the same specifier again fails with
/// `DependencyNotFoundError`.
pub proof fn lemma_remove_then_find(t: TomlV, d: DependencySpecifierV)
    requires
        wf_toml(t),
    ensures
        spec_remove_dep(t, d) matches Ok(t2) ==> spec_remove_dep(t2, d) == Err::<
            TomlV,
            HuakError,
        >(HuakError::DependencyNotFoundError),
{
    let k = normalize_key(d.name);
    if spec_remove_dep(t, d) is Ok {
        match d.group {
            None => {
                let l = t.project.dependencies->0;
                lemma_remove_then_absent(l, k);
            },
            Some(g) => {
                let gs = t.project.optional_dependencies->0;
                lemma_find_group_bounds(gs, g, 0);
                let gi = find_group(gs, g, 0)->0;
                let l = gs[gi].deps;
                lemma_find_key_bounds(l, k, 0);
                let l2 = spec_remove_list(l, k)->0;
                lemma_remove_then_absent(l, k);
                if l2.len() == 0 {
                    let gs2 = gs.remove(gi);
                    assert forall|m: int| 0 <= m < gs2.len() implies gs2[m].name != g by {
                        if m < gi {
                            assert(gs2[m] == gs[m]);
                        } else {
                            assert(gs2[m] == gs[m + 1]);
                        }
                    }
                    lemma_find_group_none(gs2, g, 0);
                } else {
                    let g2 = GroupV { name: gs[gi].name, deps: l2 };
                    lemma_find_group_update_keep(gs, g, 0, gi, g2);
                    assert(gs.update(gi, g2)[gi].deps == l2);
                }
            },
        }
    }
}

/// Group pruning: removing the only dependency of an optional group removes
/// the group key itself from the manifest.
pub proof fn lemma_group_pruning(t: TomlV, d: DependencySpecifierV, g: Seq<char>)
    requires
        wf_toml(t),
        d.group == Some(g),
        t.project.optional_dependencies matches Some(gs) && (find_group(gs, g, 0) matches Some(gi)
            && gs[gi].deps.len() == 1),
        spec_remove_dep(t, d) is Ok,
    ensures
        spec_remove_dep(t, d) matches Ok(t2) ==> t2.project.optional_dependencies matches Some(
            gs2,
        ) && find_group(gs2, g, 0) is None,
{
    let k = normalize_key(d.name);
    let gs = t.project.optional_dependencies->0;
    lemma_find_group_bounds(gs, g, 0);
    let gi = find_group(gs, g, 0)->0;
    let l = gs[gi].deps;
    lemma_find_key_bounds(l, k, 0);
    let l2 = spec_remove_list(l, k)->0;
    assert(l2.len() == 0);
    let gs2 = gs.remove(gi);
    assert forall|m: int| 0 <= m < gs2.len() implies gs2[m].name != g by {
        if m < gi {
            assert(gs2[m] == gs[m]);
        } else {
            assert(gs2[m] == gs[m + 1]);
        }
    }
    lemma_find_group_none(gs2, g, 0);
}

/// The first occurrence of `c` at or after `i` is at `k` when `c` stands at
/// `k` and nowhere earlier.
proof fn lemma_spec_find_first(v: Seq<char>, i: int, k: int, c: char)
    requires
        0 <= i <= k < v.len(),
        v[k] == c,
        forall|j: int| i <= j < k ==> v[j] != c,
    ensures
        spec_find(v, i, c) == Some(k),
    decreases k - i,
{
    if i < k {
        lemma_spec_find_first(v, i + 1, k, c);
    }
}

/// Inside a text whose tail from `p` on is the escaped form of `s` followed
/// by one closing quote, the first unescaped quote is that final one.
#[verifier::rlimit(60)]
proof fn lemma_close_quote_of_escape(s: Seq<char>, i: int, v: Seq<char>, p: int)
    requires
        0 <= i <= s.len(),
        0 <= p <= v.len(),
        v.subrange(p, v.len() as int) == escape(s, i) + "\""@,
    ensures
        close_quote(v, p) == Some(v.len() - 1),
    decreases s.len() - i,
{
    reveal_strlit("\"");
    let tail = v.subrange(p, v.len() as int);
    let rhs = escape(s, i) + "\""@;
    assert(tail.len() == v.len() - p);
    assert(rhs.len() == escape(s, i).len() + "\""@.len());
    assert("\""@.len() == 1);
    assert forall|m: int| 0 <= m < tail.len() implies tail[m] == v[p + m] by {}
    if i == s.len() {
        assert(escape(s, i) == Seq::<char>::empty());
        assert(rhs[0] == '"');
        assert(v[p] == tail[0] && tail[0] == rhs[0]);
        assert(p == v.len() - 1);
        assert(close_quote(v, p) == Some(p));
    } else {
        assert(escape(s, i) == esc_char(s[i]) + escape(s, i + 1));
        if needs_escape(s[i]) {
            assert(esc_char(s[i]).len() == 2 && esc_char(s[i])[0] == '\\');
            let rhs2 = esc_char(s[i]) + (escape(s, i + 1) + "\""@);
            assert(rhs =~= rhs2);
            assert(v[p] == tail[0] && tail[0] == rhs2[0] && rhs2[0] == '\\');
            assert(p + 2 <= v.len());
            let tail2 = v.subrange(p + 2, v.len() as int);
            assert(tail2.len() == (escape(s, i + 1) + "\""@).len());
            assert forall|m: int| 0 <= m < tail2.len() implies tail2[m] == (escape(s, i + 1)
                + "\""@)[m] by {
                assert(tail2[m] == v[p + 2 + m]);
                assert(v[p + 2 + m] == tail[m + 2]);
                assert(tail[m + 2] == rhs2[m + 2]);
                assert(rhs2[m + 2] == (escape(s, i + 1) + "\""@)[m]);
            }
            assert(tail2 =~= escape(s, i + 1) + "\""@);
            lemma_close_quote_of_escape(s, i + 1, v, p + 2);
            assert(p + 1 < v.len());
        } else {
            assert(esc_char(s[i]) == seq![s[i]]);
            let rhs2 = seq![s[i]] + (escape(s, i + 1) + "\""@);
            assert(rhs =~= rhs2);
            assert(v[p] == tail[0] && tail[0] == rhs2[0] && rhs2[0] == s[i]);
            assert(p + 1 <= v.len());
            let tail2 = v.subrange(p + 1, v.len() as int);
            assert(tail2.len() == (escape(s, i + 1) + "\""@).len());
            assert forall|m: int| 0 <= m < tail2.len() implies tail2[m] == (escape(s, i + 1)
                + "\""@)[m] by {
                assert(tail2[m] == v[p + 1 + m]);
                assert(v[p + 1 + m] == tail[m + 1]);
                assert(tail[m + 1] == rhs2[m + 1]);
                assert(rhs2[m + 1] == (escape(s, i + 1) + "\""@)[m]);
            }
            assert(tail2 =~= escape(s, i + 1) + "\""@);
            lemma_close_quote_of_escape(s, i + 1, v, p + 1);
        }
    }
}

/// Unescaping the escaped form of `s` gives `s` back.
#[verifier::rlimit(60)]
proof fn lemma_unescape_of_escape(s: Seq<char>, i: int, v: Seq<char>, p: int)
    requires
        0 <= i <= s.len(),
        0 <= p <= v.len(),
        v.subrange(p, v.len() as int) == escape(s, i),
    ensures
        unescape(v, p) == Some(s.subrange(i, s.len() as int)),
    decreases s.len() - i,
{
    let tail = v.subrange(p, v.len() as int);
    assert(tail.len() == v.len() - p);
    assert forall|m: int| 0 <= m < tail.len() implies tail[m] == v[p + m] by {}
    if i == s.len() {
        assert(escape(s, i) == Seq::<char>::empty());
        assert(p == v.len());
        assert(s.subrange(i, s.len() as int) =~= Seq::<char>::empty());
    } else {
        assert(escape(s, i) == esc_char(s[i]) + escape(s, i + 1));
        assert(escape(s, i).len() == esc_char(s[i]).len() + escape(s, i + 1).len());
        if needs_escape(s[i]) {
            assert(esc_char(s[i]).len() == 2 && esc_char(s[i])[0] == '\\');
            let rhs2 = esc_char(s[i]) + escape(s, i + 1);
            assert(escape(s, i) =~= rhs2);
            assert(v[p] == tail[0] && tail[0] == rhs2[0] && rhs2[0] == '\\');
            assert(v[p + 1] == tail[1] && tail[1] == rhs2[1] && rhs2[1] == esc_char(s[i])[1]);
            assert(p + 2 <= v.len());
            let tail2 = v.subrange(p + 2, v.len() as int);
            assert(tail2.len() == escape(s, i + 1).len());
            assert forall|m: int| 0 <= m < tail2.len() implies tail2[m] == escape(s, i + 1)[m] by {
                assert(tail2[m] == v[p + 2 + m]);
                assert(v[p + 2 + m] == tail[m + 2]);
                assert(tail[m + 2] == rhs2[m + 2]);
                assert(rhs2[m + 2] == escape(s, i + 1)[m]);
            }
            assert(tail2 =~= escape(s, i + 1));
            lemma_unescape_of_escape(s, i + 1, v, p + 2);
            assert(seq![s[i]] + s.subrange(i + 1, s.len() as int) =~= s.subrange(
                i,
                s.len() as int,
            ));
        } else {
            assert(esc_char(s[i]) == seq![s[i]]);
            let rhs2 = seq![s[i]] + escape(s, i + 1);
            assert(escape(s, i) =~= rhs2);
            assert(v[p] == tail[0] && tail[0] == rhs2[0] && rhs2[0] == s[i]);
            assert(p + 1 <= v.len());
            let tail2 = v.subrange(p + 1, v.len() as int);
            assert(tail2.len() == escape(s, i + 1).len());
            assert forall|m: int| 0 <= m < tail2.len() implies tail2[m] == escape(s, i + 1)[m] by {
                assert(tail2[m] == v[p + 1 + m]);
                assert(v[p + 1 + m] == tail[m + 1]);
                assert(tail[m + 1] == rhs2[m + 1]);
                assert(rhs2[m + 1] == escape(s, i + 1)[m]);
            }
            assert(tail2 =~= escape(s, i + 1));
            lemma_unescape_of_escape(s, i + 1, v, p + 1);
            assert(seq![s[i]] + s.subrange(i + 1, s.len() as int) =~= s.subrange(
                i,
                s.len() as int,
            ));
        }
    }
}

/// One piece of the serialize-then-parse round trip: a string value the
/// serializer escapes and quotes parses back to the text itself, for every
/// text.
pub proof fn lemma_quote_round_trip(s: Seq<char>)
    ensures
        spec_str_value(quote(s)) == Some(s),
{
    reveal_strlit("\"");
    let v = quote(s);
    assert(v.len() == escape(s, 0).len() + 2);
    assert(v[0] == '"');
    assert(v.subrange(1, v.len() as int) =~= escape(s, 0) + "\""@);
    lemma_close_quote_of_escape(s, 0, v, 1);
    assert(first_non_ws(v, v.len() as int) == v.len() as int);
    let inner = v.subrange(1, v.len() - 1);
    assert(inner =~= escape(s, 0));
    assert(inner.subrange(0, inner.len() as int) =~= inner);
    lemma_unescape_of_escape(s, 0, inner, 0);
    assert(s.subrange(0, s.len() as int) =~= s);
}

/// When nothing at or after `j` matches, no entry there carries the key.
proof fn lemma_find_key_none_inverted(l: Seq<Seq<char>>, k: Seq<char>, j: int)
    requires
        0 <= j,
        find_key(l, k, j) is None,
    ensures
        forall|m: int| j <= m < l.len() ==> dep_key(#[trigger] l[m]) != k,
    decreases l.len() - j,
{
    if j < l.len() {
        lemma_find_key_none_inverted(l, k, j + 1);
    }
}

/// Adding an entry under its own key keeps the list free of duplicate keys:
/// the manifest invariant survives `add_dependency`.
pub proof fn lemma_add_preserves_wf(l: Seq<Seq<char>>, e: Seq<char>, k: Seq<char>)
    requires
        wf_list(l),
        dep_key(e) == k,
    ensures
        wf_list(spec_add_list(l, e, k)),
{
    match find_key(l, k, 0) {
        Some(i) => {
            lemma_find_key_bounds(l, k, 0);
            let l2 = l.update(i, e);
            assert forall|a: int, b: int| 0 <= a < b < l2.len() implies dep_key(l2[a]) != dep_key(
                l2[b],
            ) by {
                assert(dep_key(l[i]) == k);
            }
        },
        None => {
            lemma_find_key_none_inverted(l, k, 0);
            let l2 = l.push(e);
            assert forall|a: int, b: int| 0 <= a < b < l2.len() implies dep_key(l2[a]) != dep_key(
                l2[b],
            ) by {
                if b < l.len() {
                    assert(l2[a] == l[a] && l2[b] == l[b]);
                } else {
                    assert(l2[a] == l[a] && l2[b] == e);
                }
            }
        },
    }
}

/// Removing an entry keeps the list free of duplicate keys: the manifest
/// invariant survives `remove_dependency`.
pub proof fn lemma_remove_preserves_wf(l: Seq<Seq<char>>, k: Seq<char>)
    requires
        wf_list(l),
    ensures
        spec_remove_list(l, k) matches Some(l2) ==> wf_list(l2),
{
    match find_key(l, k, 0) {
        Some(i) => {
            lemma_find_key_bounds(l, k, 0);
            let l2 = l.remove(i);
            assert forall|a: int, b: int| 0 <= a < b < l2.len() implies dep_key(l2[a]) != dep_key(
                l2[b],
            ) by {
                let a0 = if a < i { a } else { a + 1 };
                let b0 = if b < i { b } else { b + 1 };
                assert(l2[a] == l[a0] && l2[b] == l[b0]);
            }
        },
        None => {},
    }
}

/// The install batch never names a package twice: de-duplication leaves a
/// list free of duplicate normalized names.
pub proof fn lemma_install_targets_unique(l: Seq<Seq<char>>)
    ensures
        wf_list(spec_dedup(l)),
    decreases l.len(),
{
    if l.len() > 0 {
        let pre = l.drop_last();
        let last = l.last();
        lemma_install_targets_unique(pre);
        if !(find_key(pre, dep_key(last), 0) is Some) {
            crate::ops::lemma_dedup_keys(pre, dep_key(last));
            lemma_find_key_none_inverted(spec_dedup(pre), dep_key(last), 0);
            let d2 = spec_dedup(pre).push(last);
            assert forall|a: int, b: int| 0 <= a < b < d2.len() implies dep_key(d2[a]) != dep_key(
                d2[b],
            ) by {
                if b < spec_dedup(pre).len() {
                    assert(d2[a] == spec_dedup(pre)[a] && d2[b] == spec_dedup(pre)[b]);
                } else {
                    assert(d2[a] == spec_dedup(pre)[a] && d2[b] == last);
                }
            }
        }
    }
}

/// A key as the canonical layout writes one: non-empty, and free of
/// whitespace, `=`, `"`, and the characters that open a comment or a table
/// header.
pub open spec fn canonical_key(key: Seq<char>) -> bool {
    &&& key.len() > 0
    &&& key[0] != '#' && key[0] != '['
    &&& forall|j: int| 0 <= j < key.len() ==> key[j] != '=' && key[j] != '"'
        && !crate::text::is_ws(#[trigger] key[j])
}

/// A second piece of the round trip, one level up: a canonical
/// `key = "value"` line — exactly what the serializer emits for a scalar
/// field, less its terminating newline — applied to a parser state with no
/// array open, parses to the key dispatch `spec_kv` on the quoted value.
pub proof fn lemma_kv_line_round_trip(st: PStateV, key: Seq<char>, v: Seq<char>)
    requires
        st.target is NoArr,
        canonical_key(key),
    ensures
        ({
            let line = key + " = "@ + quote(v);
            &&& kv_line(key, v) == line + "\n"@
            &&& spec_step(st, line) == spec_kv(st, key, quote(v))
        }),
{
    reveal_strlit(" = ");
    reveal_strlit("\"");
    let k = key.len() as int;
    let line = key + " = "@ + quote(v);
    assert(kv_line(key, v) =~= line + "\n"@);
    assert(line.len() == escape(v, 0).len() + k + 5);
    assert(line[0] == key[0]);
    assert(line[line.len() - 1] == '"');
    assert(first_non_ws(line, 0) == 0);
    assert(trim_end_idx(line, line.len() as int) == line.len() as int);
    assert(spec_trim(line) =~= line);
    assert(line[k + 1] == '=');
    assert forall|j: int| 0 <= j < k + 1 implies line[j] != '=' by {
        if j < k {
            assert(line[j] == key[j]);
        } else {
            assert(line[j] == ' ');
        }
    }
    lemma_spec_find_first(line, 0, k + 1, '=');
    let keyraw = line.subrange(0, k + 1);
    assert(keyraw[k] == ' ');
    assert(keyraw[k - 1] == key[k - 1]);
    assert(first_non_ws(keyraw, 0) == 0);
    assert(trim_end_idx(keyraw, k) == k);
    assert(trim_end_idx(keyraw, k + 1) == k);
    assert(spec_trim(keyraw) =~= key);
    let valraw = line.subrange(k + 2, line.len() as int);
    assert(valraw.len() == escape(v, 0).len() + 3);
    assert(valraw[0] == ' ' && valraw[1] == '"');
    assert(first_non_ws(valraw, 1) == 1);
    assert(first_non_ws(valraw, 0) == 1);
    assert(valraw[valraw.len() - 1] == '"');
    assert(trim_end_idx(valraw, valraw.len() as int) == valraw.len() as int);
    assert(spec_trim(valraw) =~= quote(v));
}

/// The corollary for the name field: the serializer's `name = "value"`
/// line, inside the `[project]` table, sets exactly the project name.
pub proof fn lemma_name_line_round_trip(st: PStateV, v: Seq<char>)
    requires
        st.table == Table::Project,
        st.target is NoArr,
    ensures
        spec_step(st, "name"@ + " = "@ + quote(v)) == Ok::<PStateV, HuakError>(
            PStateV { name: Some(v), ..st },
        ),
{
    reveal_strlit("name");
    assert(canonical_key("name"@));
    lemma_kv_line_round_trip(st, "name"@, v);
    lemma_quote_round_trip(v);
}

/// A third piece of the round trip: a canonical multi-line array element
/// line — four spaces of indent, the escaped quoted value, a trailing
/// comma; exactly what the serializer emits inside an array, less the
/// newline — applied to a state with an array open, appends exactly the
/// value to the pending items.
pub proof fn lemma_array_item_line_round_trip(st: PStateV, v: Seq<char>)
    requires
        !(st.target is NoArr),
    ensures
        ({
            let line = "    "@ + quote(v) + ","@;
            &&& "    "@ + quote(v) + ",\n"@ == line + "\n"@
            &&& spec_step(st, line) == Ok::<PStateV, HuakError>(
                PStateV { items: st.items.push(v), ..st },
            )
        }),
{
    reveal_strlit("    ");
    reveal_strlit(",");
    reveal_strlit(",\n");
    reveal_strlit("\n");
    reveal_strlit("\"");
    reveal_strlit("]");
    let line = "    "@ + quote(v) + ","@;
    assert("    "@ + quote(v) + ",\n"@ =~= line + "\n"@);
    let q = quote(v);
    assert(q.len() == escape(v, 0).len() + 2);
    assert(q[0] == '"' && q[q.len() - 1] == '"');
    assert(line.len() == q.len() + 5);
    assert(line[0] == ' ' && line[1] == ' ' && line[2] == ' ' && line[3] == ' ');
    assert(line[4] == q[0]);
    assert(line[line.len() - 1] == ',');
    assert(first_non_ws(line, 4) == 4);
    assert(first_non_ws(line, 3) == 4);
    assert(first_non_ws(line, 2) == 4);
    assert(first_non_ws(line, 1) == 4);
    assert(first_non_ws(line, 0) == 4);
    assert(trim_end_idx(line, line.len() as int) == line.len() as int);
    let lt = line.subrange(4, line.len() as int);
    assert(spec_trim(line) =~= lt);
    assert forall|m: int| 0 <= m < lt.len() implies lt[m] == line[4 + m] by {}
    assert(lt.len() == q.len() + 1);
    assert(lt[0] == '"');
    assert(lt != "]"@) by {
        assert("]"@.len() == 1);
    }
    assert(lt[lt.len() - 1] == ',');
    let inner = lt.subrange(0, lt.len() - 1);
    assert(inner =~= q);
    assert(first_non_ws(inner, 0) == 0);
    assert(trim_end_idx(inner, inner.len() as int) == inner.len() as int);
    assert(spec_trim(inner) =~= q);
    lemma_quote_round_trip(v);
}

/// The closing line of a multi-line array commits the pending items to the
/// open target and closes it.
pub proof fn lemma_array_close_line_round_trip(st: PStateV)
    requires
        !(st.target is NoArr),
    ensures
        spec_step(st, "]"@) == Ok::<PStateV, HuakError>(
            PStateV {
                target: ArrTargetV::NoArr,
                items: Seq::empty(),
                ..spec_commit(st, st.target, st.items)
            },
        ),
{
    reveal_strlit("]");
    assert(first_non_ws("]"@, 0) == 0);
    assert(trim_end_idx("]"@, 1) == 1);
    assert(spec_trim("]"@) =~= "]"@);
}

/// The `[project]` header line opens the project table.
pub proof fn lemma_project_header_round_trip(st: PStateV)
    requires
        st.target is NoArr,
    ensures
        spec_step(st, "[project]"@) == Ok::<PStateV, HuakError>(
            PStateV { table: Table::Project, saw_project: true, ..st },
        ),
{
    reveal_strlit("[project]");
    let h = "[project]"@;
    assert(first_non_ws(h, 0) == 0);
    assert(trim_end_idx(h, h.len() as int) == h.len() as int);
    assert(spec_trim(h) =~= h);
}

} // verus!

