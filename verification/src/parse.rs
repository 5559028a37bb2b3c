//! Parsing manifest text into a [`Toml`] model.
//!
//! The parser is line-based over the manifest's TOML-family syntax: table
//! headers, `key = "value"` lines, single-line and multi-line string arrays,
//! comments and blank lines. Inside quoted values the escapes `\"`, `\\`
//! and `\n` are interpreted — exactly what the serializer emits — and a
//! comment after a scalar value is ignored. Unknown tables and keys are
//! tolerated and ignored; a line that fits no shape is a
//! `ManifestFormatError`, and a known key with the wrong value shape, or a
//! missing required field, is a `ManifestSchemaError`. A comment trailing an
//! array element or an array's closing bracket is not accepted.

use vstd::prelude::*;
use vstd::string::*;

use crate::errors::HuakError;
use crate::manifest::{
    Author, AuthorV, BuildSystem, BuildSystemV, Group, GroupV, Project, ProjectV, Script, ScriptV,
    Toml, TomlV,
};
use crate::text::{
    find_char, first_non_ws, lemma_first_non_ws_bounds, lemma_spec_find_bounds, skip_ws, spec_find,
    spec_trim, str_eq, trim_str,
};

verus! {

/// Index of the first unescaped quote at or after `i`: a backslash and the
/// character after it are skipped as a pair.
pub open spec fn close_quote(v: Seq<char>, i: int) -> Option<int>
    decreases v.len() - i,
{
    if i < 0 || i >= v.len() {
        None
    } else if v[i] == '"' {
        Some(i)
    } else if v[i] == '\\' {
        if i + 1 < v.len() {
            close_quote(v, i + 2)
        } else {
            None
        }
    } else {
        close_quote(v, i + 1)
    }
}

pub proof fn lemma_close_quote_bounds(v: Seq<char>, i: int)
    requires
        0 <= i,
    ensures
        close_quote(v, i) matches Some(k) ==> i <= k < v.len() && v[k] == '"',
    decreases v.len() - i,
{
    if 0 <= i < v.len() && v[i] != '"' {
        if v[i] == '\\' {
            if i + 1 < v.len() {
                lemma_close_quote_bounds(v, i + 2);
            }
        } else {
            lemma_close_quote_bounds(v, i + 1);
        }
    }
}

/// The text an escaped value denotes: `\"`, `\\` and `\n` stand for the
/// quote, the backslash and the line break; any other escape, or a trailing
/// lone backslash, is rejected.
pub open spec fn unescape(s: Seq<char>, i: int) -> Option<Seq<char>>
    decreases s.len() - i,
{
    if i < 0 || i >= s.len() {
        Some(Seq::empty())
    } else if s[i] == '\\' {
        if i + 1 < s.len() {
            let c = s[i + 1];
            if c == '"' || c == '\\' || c == 'n' {
                match unescape(s, i + 2) {
                    Some(r) => Some(seq![if c == 'n' { '\n' } else { c }] + r),
                    None => None,
                }
            } else {
                None
            }
        } else {
            None
        }
    } else {
        match unescape(s, i + 1) {
            Some(r) => Some(seq![s[i]] + r),
            None => None,
        }
    }
}

/// Over a run without backslashes, unescaping is the identity.
pub proof fn lemma_unescape_plain_run(v: Seq<char>, i: int, j: int)
    requires
        0 <= i <= j <= v.len(),
        forall|m: int| i <= m < j ==> v[m] != '\\',
    ensures
        unescape(v, i) == match unescape(v, j) {
            Some(r) => Some(v.subrange(i, j) + r),
            None => None::<Seq<char>>,
        },
    decreases j - i,
{
    if i < j {
        lemma_unescape_plain_run(v, i + 1, j);
        match unescape(v, j) {
            Some(r) => {
                assert(v.subrange(i, j) =~= seq![v[i]] + v.subrange(i + 1, j));
                assert(unescape(v, i) == Some(seq![v[i]] + (v.subrange(i + 1, j) + r)));
                assert(seq![v[i]] + (v.subrange(i + 1, j) + r) =~= v.subrange(i, j) + r);
            },
            None => {},
        }
    } else {
        match unescape(v, i) {
            Some(r) => {
                assert(v.subrange(i, i) + r =~= r);
            },
            None => {},
        }
    }
}

/// A quoted-string value: the text up to the first unescaped quote, with
/// escapes interpreted; after the closing quote only whitespace and an
/// optional comment may follow.
pub open spec fn spec_str_value(v: Seq<char>) -> Option<Seq<char>> {
    if v.len() >= 2 && v[0] == '"' {
        match close_quote(v, 1) {
            Some(k) => {
                let m = first_non_ws(v, k + 1);
                if m >= v.len() || v[m] == '#' {
                    unescape(v.subrange(1, k), 0)
                } else {
                    None
                }
            },
            None => None,
        }
    } else {
        None
    }
}

/// Finds the first unescaped quote at or after `from`.
fn find_close_quote(v: &str, from: usize) -> (r: Option<usize>)
    requires
        from <= v@.len(),
    ensures
        r matches Some(k) ==> close_quote(v@, from as int) == Some(k as int),
        r is None ==> close_quote(v@, from as int) is None,
{
    let n = v.unicode_len();
    let mut i = from;
    while i < n
        invariant
            from <= i <= n,
            n == v@.len(),
            close_quote(v@, from as int) == close_quote(v@, i as int),
        decreases n - i,
    {
        let c = v.get_char(i);
        if c == '"' {
            return Some(i);
        }
        if c == '\\' {
            if i + 1 < n {
                i = i + 2;
            } else {
                return None;
            }
        } else {
            i = i + 1;
        }
    }
    None
}

/// Interprets the escapes of an already-delimited value text.
fn unescape_str(v: &str) -> (r: Option<String>)
    ensures
        match unescape(v@, 0) {
            Some(u) => r matches Some(x) && x@ == u,
            None => r is None,
        },
{
    let n = v.unicode_len();
    let mut out = String::new();
    let mut i: usize = 0;
    let mut j: usize = 0;
    while j < n
        invariant
            i <= j <= n,
            n == v@.len(),
            forall|m: int| i <= m < j ==> v@[m] != '\\',
            match unescape(v@, i as int) {
                Some(rest) => unescape(v@, 0) == Some(out@ + rest),
                None => unescape(v@, 0) is None,
            },
        decreases n - j,
    {
        let c = v.get_char(j);
        if c == '\\' {
            proof {
                lemma_unescape_plain_run(v@, i as int, j as int);
            }
            if j + 1 >= n {
                return None;
            }
            let e = v.get_char(j + 1);
            if !(e == '"' || e == '\\' || e == 'n') {
                return None;
            }
            let ghost before = out@;
            out.append(v.substring_char(i, j));
            if e == 'n' {
                out.append("\n");
            } else if e == '"' {
                out.append("\"");
            } else {
                out.append("\\");
            }
            let ghost d = if e == 'n' {
                '\n'
            } else {
                e
            };
            proof {
                reveal_strlit("\n");
                reveal_strlit("\"");
                reveal_strlit("\\");
                assert(out@ =~= before + (v@.subrange(i as int, j as int) + seq![d]));
                match unescape(v@, j as int + 2) {
                    Some(r2) => {
                        assert(unescape(v@, i as int) == Some(v@.subrange(i as int, j as int) + (
                        seq![d] + r2)));
                        assert(before + (v@.subrange(i as int, j as int) + (seq![d] + r2))
                            =~= out@ + r2);
                    },
                    None => {},
                }
            }
            i = j + 2;
            j = j + 2;
        } else {
            j = j + 1;
        }
    }
    proof {
        lemma_unescape_plain_run(v@, i as int, n as int);
        assert(unescape(v@, n as int) == Some(Seq::<char>::empty()));
    }
    let ghost before = out@;
    out.append(v.substring_char(i, n));
    proof {
        assert(before + (v@.subrange(i as int, n as int) + Seq::<char>::empty()) =~= out@);
    }
    Some(out)
}

/// Reads a quoted-string value.
fn str_value(v: &str) -> (r: Option<String>)
    ensures
        match spec_str_value(v@) {
            Some(c) => r matches Some(x) && x@ == c,
            None => r is None,
        },
{
    let n = v.unicode_len();
    if n < 2 {
        return None;
    }
    if v.get_char(0) != '"' {
        return None;
    }
    match find_close_quote(v, 1) {
        Some(k) => {
            proof {
                lemma_close_quote_bounds(v@, 1);
            }
            let m = skip_ws(v, k + 1);
            if m < n && v.get_char(m) != '#' {
                return None;
            }
            unescape_str(v.substring_char(1, k))
        },
        None => None,
    }
}

/// The comma-separated quoted strings of a single-line array body, starting
/// at `i`, with escapes interpreted; `None` when the body does not have
/// that shape.
pub open spec fn spec_items(s: Seq<char>, i: int) -> Option<Seq<Seq<char>>>
    decreases s.len() - i,
    when 0 <= i <= s.len()
    via spec_items_dec
{
    let j = first_non_ws(s, i);
    if j >= s.len() {
        Some(Seq::empty())
    } else if s[j] != '"' {
        None
    } else {
        match close_quote(s, j + 1) {
            None => None,
            Some(k) => {
                match unescape(s.subrange(j + 1, k), 0) {
                    None => None,
                    Some(item) => {
                        let m = first_non_ws(s, k + 1);
                        if m >= s.len() {
                            Some(seq![item])
                        } else if s[m] == ',' {
                            match spec_items(s, m + 1) {
                                None => None,
                                Some(rest) => Some(seq![item] + rest),
                            }
                        } else {
                            None
                        }
                    },
                }
            },
        }
    }
}

#[via_fn]
proof fn spec_items_dec(s: Seq<char>, i: int) {
    lemma_first_non_ws_bounds(s, i);
    let j = first_non_ws(s, i);
    if j < s.len() {
        lemma_close_quote_bounds(s, j + 1);
        match close_quote(s, j + 1) {
            Some(k) => {
                lemma_first_non_ws_bounds(s, k + 1);
            },
            None => {},
        }
    }
}

/// Reads the comma-separated quoted strings of a single-line array body.
fn items_of(s: &str) -> (r: Option<Vec<String>>)
    ensures
        match spec_items(s@, 0) {
            Some(its) => r matches Some(v) && v.deep_view() == its,
            None => r is None,
        },
{
    let n = s.unicode_len();
    let mut acc: Vec<String> = Vec::new();
    let mut i: usize = 0;
    loop
        invariant
            i <= n,
            n == s@.len(),
            match spec_items(s@, i as int) {
                Some(rest) => spec_items(s@, 0) == Some(acc.deep_view() + rest),
                None => spec_items(s@, 0) is None,
            },
        decreases n - i,
    {
        let j = skip_ws(s, i);
        if j >= n {
            proof {
                assert(acc.deep_view() + Seq::<Seq<char>>::empty() =~= acc.deep_view());
            }
            return Some(acc);
        }
        if s.get_char(j) != '"' {
            return None;
        }
        match find_close_quote(s, j + 1) {
            None => {
                return None;
            },
            Some(k) => {
                proof {
                    lemma_close_quote_bounds(s@, j as int + 1);
                }
                let item = match unescape_str(s.substring_char(j + 1, k)) {
                    Some(u) => u,
                    None => {
                        return None;
                    },
                };
                let ghost item_v = item@;
                let ghost acc_old = acc.deep_view();
                acc.push(item);
                proof {
                    assert(acc.deep_view() =~= acc_old.push(item_v));
                }
                let m = skip_ws(s, k + 1);
                if m >= n {
                    proof {
                        assert(spec_items(s@, i as int) == Some(seq![item_v]));
                        assert(acc_old + seq![item_v] =~= acc.deep_view());
                    }
                    return Some(acc);
                }
                if s.get_char(m) == ',' {
                    proof {
                        match spec_items(s@, m + 1) {
                            Some(rest2) => {
                                assert(spec_items(s@, i as int) == Some(seq![item_v] + rest2));
                                assert(acc_old + (seq![item_v] + rest2) =~= acc.deep_view()
                                    + rest2);
                            },
                            None => {},
                        }
                    }
                    i = m + 1;
                } else {
                    return None;
                }
            },
        }
    }
}

/// A whole single-line array value, brackets included.
pub open spec fn spec_inline_array(v: Seq<char>) -> Option<Seq<Seq<char>>> {
    if v.len() >= 2 && v[0] == '[' && v[v.len() - 1] == ']' {
        spec_items(v.subrange(1, v.len() - 1), 0)
    } else {
        None
    }
}

/// Reads a whole single-line array value, brackets included.
fn inline_array(v: &str) -> (r: Option<Vec<String>>)
    ensures
        match spec_inline_array(v@) {
            Some(its) => r matches Some(x) && x.deep_view() == its,
            None => r is None,
        },
{
    let n = v.unicode_len();
    if n < 2 {
        return None;
    }
    if v.get_char(0) != '[' {
        return None;
    }
    if v.get_char(n - 1) != ']' {
        return None;
    }
    items_of(v.substring_char(1, n - 1))
}

/// Which table the parser is inside.
#[derive(Clone, Copy, Debug, PartialEq, Eq, Structural)]
pub enum Table {
    /// Before any table header.
    Top,
    Project,
    Build,
    OptDeps,
    Scripts,
    Authors,
    /// A table the schema does not model; its keys are ignored.
    Other,
}

/// Where the items of an open multi-line array will be committed.
#[derive(Clone, Debug)]
pub enum ArrTarget {
    NoArr,
    Deps,
    Requires,
    GroupArr(String),
    Discard,
}

/// Mathematical value of an [`ArrTarget`].
#[verifier::ext_equal]
pub enum ArrTargetV {
    NoArr,
    Deps,
    Requires,
    GroupArr(Seq<char>),
    Discard,
}

impl View for ArrTarget {
    type V = ArrTargetV;

    open spec fn view(&self) -> ArrTargetV {
        match self {
            ArrTarget::NoArr => ArrTargetV::NoArr,
            ArrTarget::Deps => ArrTargetV::Deps,
            ArrTarget::Requires => ArrTargetV::Requires,
            ArrTarget::GroupArr(g) => ArrTargetV::GroupArr(g@),
            ArrTarget::Discard => ArrTargetV::Discard,
        }
    }
}

/// Parser state: the current table, an open multi-line array if any, and
/// every field collected so far. A `has_*` flag records whether the matching
/// section was present at all, so that an absent list and an empty list stay
/// distinct.
pub struct PState {
    pub table: Table,
    pub target: ArrTarget,
    pub items: Vec<String>,
    pub name: Option<String>,
    pub version: Option<String>,
    pub description: Option<String>,
    pub has_deps: bool,
    pub deps: Vec<String>,
    pub has_authors: bool,
    pub authors: Vec<Author>,
    pub has_groups: bool,
    pub groups: Vec<Group>,
    pub has_scripts: bool,
    pub scripts: Vec<Script>,
    pub has_requires: bool,
    pub requires: Vec<String>,
    pub backend: Option<String>,
    pub saw_project: bool,
    pub saw_build: bool,
}

/// Mathematical value of a [`PState`].
#[verifier::ext_equal]
pub struct PStateV {
    pub table: Table,
    pub target: ArrTargetV,
    pub items: Seq<Seq<char>>,
    pub name: Option<Seq<char>>,
    pub version: Option<Seq<char>>,
    pub description: Option<Seq<char>>,
    pub has_deps: bool,
    pub deps: Seq<Seq<char>>,
    pub has_authors: bool,
    pub authors: Seq<AuthorV>,
    pub has_groups: bool,
    pub groups: Seq<GroupV>,
    pub has_scripts: bool,
    pub scripts: Seq<ScriptV>,
    pub has_requires: bool,
    pub requires: Seq<Seq<char>>,
    pub backend: Option<Seq<char>>,
    pub saw_project: bool,
    pub saw_build: bool,
}

impl View for PState {
    type V = PStateV;

    open spec fn view(&self) -> PStateV {
        PStateV {
            table: self.table,
            target: self.target@,
            items: self.items.deep_view(),
            name: self.name.deep_view(),
            version: self.version.deep_view(),
            description: self.description.deep_view(),
            has_deps: self.has_deps,
            deps: self.deps.deep_view(),
            has_authors: self.has_authors,
            authors: self.authors.deep_view(),
            has_groups: self.has_groups,
            groups: self.groups.deep_view(),
            has_scripts: self.has_scripts,
            scripts: self.scripts.deep_view(),
            has_requires: self.has_requires,
            requires: self.requires.deep_view(),
            backend: self.backend.deep_view(),
            saw_project: self.saw_project,
            saw_build: self.saw_build,
        }
    }
}

/// The state the parser starts in.
pub open spec fn spec_init() -> PStateV {
    PStateV {
        table: Table::Top,
        target: ArrTargetV::NoArr,
        items: Seq::empty(),
        name: None,
        version: None,
        description: None,
        has_deps: false,
        deps: Seq::empty(),
        has_authors: false,
        authors: Seq::empty(),
        has_groups: false,
        groups: Seq::empty(),
        has_scripts: false,
        scripts: Seq::empty(),
        has_requires: false,
        requires: Seq::empty(),
        backend: None,
        saw_project: false,
        saw_build: false,
    }
}

/// Commits a finished array's items to their target.
pub open spec fn spec_commit(st: PStateV, target: ArrTargetV, items: Seq<Seq<char>>) -> PStateV {
    match target {
        ArrTargetV::Deps => PStateV { has_deps: true, deps: items, ..st },
        ArrTargetV::Requires => PStateV { has_requires: true, requires: items, ..st },
        ArrTargetV::GroupArr(g) => PStateV {
            has_groups: true,
            groups: st.groups.push(GroupV { name: g, deps: items }),
            ..st
        },
        _ => st,
    }
}

/// One `key = value` line, dispatched on the current table. Unknown keys are
/// tolerated; a known key whose value has the wrong shape is a schema error.
pub open spec fn spec_kv(st: PStateV, key: Seq<char>, val: Seq<char>) -> Result<
    PStateV,
    HuakError,
> {
    if st.table == Table::Project {
        if key == "name"@ {
            match spec_str_value(val) {
                Some(v) => Ok(PStateV { name: Some(v), ..st }),
                None => Err(HuakError::ManifestSchemaError),
            }
        } else if key == "version"@ {
            match spec_str_value(val) {
                Some(v) => Ok(PStateV { version: Some(v), ..st }),
                None => Err(HuakError::ManifestSchemaError),
            }
        } else if key == "description"@ {
            match spec_str_value(val) {
                Some(v) => Ok(PStateV { description: Some(v), ..st }),
                None => Err(HuakError::ManifestSchemaError),
            }
        } else if key == "dependencies"@ {
            if val == "["@ {
                Ok(PStateV { target: ArrTargetV::Deps, items: Seq::empty(), ..st })
            } else {
                match spec_inline_array(val) {
                    Some(its) => Ok(spec_commit(st, ArrTargetV::Deps, its)),
                    None => Err(HuakError::ManifestSchemaError),
                }
            }
        } else {
            if val == "["@ {
                Ok(PStateV { target: ArrTargetV::Discard, items: Seq::empty(), ..st })
            } else {
                Ok(st)
            }
        }
    } else if st.table == Table::Build {
        if key == "requires"@ {
            if val == "["@ {
                Ok(PStateV { target: ArrTargetV::Requires, items: Seq::empty(), ..st })
            } else {
                match spec_inline_array(val) {
                    Some(its) => Ok(spec_commit(st, ArrTargetV::Requires, its)),
                    None => Err(HuakError::ManifestSchemaError),
                }
            }
        } else if key == "build-backend"@ {
            match spec_str_value(val) {
                Some(v) => Ok(PStateV { backend: Some(v), ..st }),
                None => Err(HuakError::ManifestSchemaError),
            }
        } else {
            if val == "["@ {
                Ok(PStateV { target: ArrTargetV::Discard, items: Seq::empty(), ..st })
            } else {
                Ok(st)
            }
        }
    } else if st.table == Table::OptDeps {
        if val == "["@ {
            Ok(PStateV { target: ArrTargetV::GroupArr(key), items: Seq::empty(), ..st })
        } else {
            match spec_inline_array(val) {
                Some(its) => Ok(spec_commit(st, ArrTargetV::GroupArr(key), its)),
                None => Err(HuakError::ManifestSchemaError),
            }
        }
    } else if st.table == Table::Scripts {
        match spec_str_value(val) {
            Some(v) => Ok(
                PStateV {
                    has_scripts: true,
                    scripts: st.scripts.push(ScriptV { name: key, entry: v }),
                    ..st
                },
            ),
            None => Err(HuakError::ManifestSchemaError),
        }
    } else if st.table == Table::Authors {
        if key == "name"@ || key == "email"@ {
            match spec_str_value(val) {
                Some(v) => {
                    if st.authors.len() > 0 {
                        let last = st.authors[st.authors.len() - 1];
                        let upd = if key == "name"@ {
                            AuthorV { name: Some(v), ..last }
                        } else {
                            AuthorV { email: Some(v), ..last }
                        };
                        Ok(
                            PStateV {
                                authors: st.authors.update(st.authors.len() - 1, upd),
                                ..st
                            },
                        )
                    } else {
                        Ok(st)
                    }
                },
                None => Err(HuakError::ManifestSchemaError),
            }
        } else {
            if val == "["@ {
                Ok(PStateV { target: ArrTargetV::Discard, items: Seq::empty(), ..st })
            } else {
                Ok(st)
            }
        }
    } else {
        if val == "["@ {
            Ok(PStateV { target: ArrTargetV::Discard, items: Seq::empty(), ..st })
        } else {
            Ok(st)
        }
    }
}

/// One raw input line applied to the parser state.
pub open spec fn spec_step(st: PStateV, raw: Seq<char>) -> Result<PStateV, HuakError> {
    let line = spec_trim(raw);
    if !(st.target is NoArr) {
        if line.len() == 0 || line[0] == '#' {
            Ok(st)
        } else if line == "]"@ {
            Ok(
                PStateV {
                    target: ArrTargetV::NoArr,
                    items: Seq::empty(),
                    ..spec_commit(st, st.target, st.items)
                },
            )
        } else {
            let elem = if line[line.len() - 1] == ',' {
                spec_trim(line.subrange(0, line.len() - 1))
            } else {
                line
            };
            match spec_str_value(elem) {
                Some(item) => Ok(PStateV { items: st.items.push(item), ..st }),
                None => Err(HuakError::ManifestFormatError),
            }
        }
    } else if line.len() == 0 || line[0] == '#' {
        Ok(st)
    } else if line[0] == '[' {
        if line == "[project]"@ {
            Ok(PStateV { table: Table::Project, saw_project: true, ..st })
        } else if line == "[build-system]"@ {
            Ok(PStateV { table: Table::Build, saw_build: true, ..st })
        } else if line == "[project.optional-dependencies]"@ {
            Ok(PStateV { table: Table::OptDeps, has_groups: true, ..st })
        } else if line == "[project.scripts]"@ {
            Ok(PStateV { table: Table::Scripts, has_scripts: true, ..st })
        } else if line == "[[project.authors]]"@ {
            Ok(
                PStateV {
                    table: Table::Authors,
                    has_authors: true,
                    authors: st.authors.push(AuthorV { name: None, email: None }),
                    ..st
                },
            )
        } else if line[line.len() - 1] == ']' {
            Ok(PStateV { table: Table::Other, ..st })
        } else {
            Err(HuakError::ManifestFormatError)
        }
    } else {
        match spec_find(line, 0, '=') {
            None => Err(HuakError::ManifestFormatError),
            Some(e) => {
                let key = spec_trim(line.subrange(0, e));
                let val = spec_trim(line.subrange(e + 1, line.len() as int));
                if key.len() == 0 {
                    Err(HuakError::ManifestFormatError)
                } else {
                    spec_kv(st, key, val)
                }
            },
        }
    }
}

/// Runs the remaining lines, from index `i`, through the state.
pub open spec fn spec_run(st: PStateV, lines: Seq<Seq<char>>, i: int) -> Result<
    PStateV,
    HuakError,
>
    decreases lines.len() - i,
{
    if i < 0 || i >= lines.len() {
        Ok(st)
    } else {
        match spec_step(st, lines[i]) {
            Err(e) => Err(e),
            Ok(st2) => spec_run(st2, lines, i + 1),
        }
    }
}

/// The manifest value a finished state denotes, or the error it fails with:
/// an unterminated array is a format error; a missing `[project]` table,
/// project name, `[build-system]` table or `requires` list is a schema
/// error.
pub open spec fn spec_finalize(st: PStateV) -> Result<TomlV, HuakError> {
    if !(st.target is NoArr) {
        Err(HuakError::ManifestFormatError)
    } else if !st.saw_project || st.name is None {
        Err(HuakError::ManifestSchemaError)
    } else if !st.saw_build || !st.has_requires {
        Err(HuakError::ManifestSchemaError)
    } else {
        Ok(
            TomlV {
                project: ProjectV {
                    name: st.name->0,
                    version: st.version,
                    description: st.description,
                    dependencies: if st.has_deps {
                        Some(st.deps)
                    } else {
                        None
                    },
                    authors: if st.has_authors {
                        Some(st.authors)
                    } else {
                        None
                    },
                    optional_dependencies: if st.has_groups {
                        Some(st.groups)
                    } else {
                        None
                    },
                    scripts: if st.has_scripts {
                        Some(st.scripts)
                    } else {
                        None
                    },
                },
                build_system: BuildSystemV {
                    requires: st.requires,
                    build_backend: st.backend,
                },
            },
        )
    }
}

/// The lines of `s` from position `pos` on, split at `\n`.
pub open spec fn spec_lines_from(s: Seq<char>, pos: int) -> Seq<Seq<char>>
    decreases s.len() - pos,
    when 0 <= pos <= s.len()
    via spec_lines_from_dec
{
    match spec_find(s, pos, '\n') {
        None => seq![s.subrange(pos, s.len() as int)],
        Some(k) => seq![s.subrange(pos, k)] + spec_lines_from(s, k + 1),
    }
}

#[via_fn]
proof fn spec_lines_from_dec(s: Seq<char>, pos: int) {
    lemma_spec_find_bounds(s, pos, '\n');
}

/// What parsing a whole text yields.
pub open spec fn spec_parse(s: Seq<char>) -> Result<TomlV, HuakError> {
    match spec_run(spec_init(), spec_lines_from(s, 0), 0) {
        Ok(st) => spec_finalize(st),
        Err(e) => Err(e),
    }
}

/// Splits the input into lines.
fn split_lines(s: &str) -> (r: Vec<String>)
    ensures
        r.deep_view() == spec_lines_from(s@, 0),
{
    let n = s.unicode_len();
    let mut acc: Vec<String> = Vec::new();
    let mut pos: usize = 0;
    loop
        invariant
            pos <= n,
            n == s@.len(),
            spec_lines_from(s@, 0) == acc.deep_view() + spec_lines_from(s@, pos as int),
        decreases n - pos,
    {
        let ghost acc_old = acc.deep_view();
        match find_char(s, pos, '\n') {
            None => {
                let line = s.substring_char(pos, n).to_owned();
                let ghost lv = line@;
                acc.push(line);
                proof {
                    assert(acc.deep_view() =~= acc_old.push(lv));
                    assert(spec_lines_from(s@, pos as int) == seq![lv]);
                    assert(acc_old + seq![lv] =~= acc.deep_view());
                    assert(acc.deep_view()
                        =~= acc_old + spec_lines_from(s@, pos as int));
                }
                return acc;
            },
            Some(k) => {
                proof {
                    lemma_spec_find_bounds(s@, pos as int, '\n');
                }
                let line = s.substring_char(pos, k).to_owned();
                let ghost lv = line@;
                acc.push(line);
                proof {
                    assert(acc.deep_view() =~= acc_old.push(lv));
                    assert(spec_lines_from(s@, pos as int) == seq![lv] + spec_lines_from(
                        s@,
                        k + 1,
                    ));
                    assert(acc_old + (seq![lv] + spec_lines_from(s@, k + 1)) =~= acc.deep_view()
                        + spec_lines_from(s@, k + 1));
                }
                pos = k + 1;
            },
        }
    }
}

/// A fresh, empty item list.
fn empty_items() -> (r: Vec<String>)
    ensures
        r.deep_view() == Seq::<Seq<char>>::empty(),
{
    let r: Vec<String> = Vec::new();
    proof {
        assert(r.deep_view() =~= Seq::<Seq<char>>::empty());
    }
    r
}

impl PState {
    /// The state the parser starts in.
    fn new() -> (r: PState)
        ensures
            r@ == spec_init(),
    {
        let r = PState {
            table: Table::Top,
            target: ArrTarget::NoArr,
            items: empty_items(),
            name: None,
            version: None,
            description: None,
            has_deps: false,
            deps: Vec::new(),
            has_authors: false,
            authors: Vec::new(),
            has_groups: false,
            groups: Vec::new(),
            has_scripts: false,
            scripts: Vec::new(),
            has_requires: false,
            requires: Vec::new(),
            backend: None,
            saw_project: false,
            saw_build: false,
        };
        proof {
            assert(r@ =~= spec_init());
        }
        r
    }
}

/// Commits a finished array's items to their target.
fn commit(st: PState, target: ArrTarget, items: Vec<String>) -> (r: PState)
    ensures
        r@ == spec_commit(st@, target@, items.deep_view()),
{
    match target {
        ArrTarget::Deps => PState { has_deps: true, deps: items, ..st },
        ArrTarget::Requires => PState { has_requires: true, requires: items, ..st },
        ArrTarget::GroupArr(g) => {
            let ghost gs_old = st.groups.deep_view();
            let ghost gv = GroupV { name: g@, deps: items.deep_view() };
            let mut groups = st.groups;
            groups.push(Group { name: g, deps: items });
            proof {
                assert(groups.deep_view() =~= gs_old.push(gv));
            }
            PState { has_groups: true, groups, ..st }
        },
        ArrTarget::NoArr => st,
        ArrTarget::Discard => st,
    }
}

/// Applies one `key = value` line to the state.
#[verifier::rlimit(60)]
fn apply_kv(st: PState, key: String, val: String) -> (r: Result<PState, HuakError>)
    ensures
        match spec_kv(st@, key@, val@) {
            Ok(s2) => r matches Ok(s) && s@ == s2,
            Err(e) => r matches Err(e2) && e2 == e,
        },
{
    if st.table == Table::Project {
        if str_eq(key.as_str(), "name") {
            match str_value(val.as_str()) {
                Some(v) => Ok(PState { name: Some(v), ..st }),
                None => Err(HuakError::ManifestSchemaError),
            }
        } else if str_eq(key.as_str(), "version") {
            match str_value(val.as_str()) {
                Some(v) => Ok(PState { version: Some(v), ..st }),
                None => Err(HuakError::ManifestSchemaError),
            }
        } else if str_eq(key.as_str(), "description") {
            match str_value(val.as_str()) {
                Some(v) => Ok(PState { description: Some(v), ..st }),
                None => Err(HuakError::ManifestSchemaError),
            }
        } else if str_eq(key.as_str(), "dependencies") {
            if str_eq(val.as_str(), "[") {
                Ok(PState { target: ArrTarget::Deps, items: empty_items(), ..st })
            } else {
                match inline_array(val.as_str()) {
                    Some(its) => Ok(commit(st, ArrTarget::Deps, its)),
                    None => Err(HuakError::ManifestSchemaError),
                }
            }
        } else {
            if str_eq(val.as_str(), "[") {
                Ok(PState { target: ArrTarget::Discard, items: empty_items(), ..st })
            } else {
                Ok(st)
            }
        }
    } else if st.table == Table::Build {
        if str_eq(key.as_str(), "requires") {
            if str_eq(val.as_str(), "[") {
                Ok(PState { target: ArrTarget::Requires, items: empty_items(), ..st })
            } else {
                match inline_array(val.as_str()) {
                    Some(its) => Ok(commit(st, ArrTarget::Requires, its)),
                    None => Err(HuakError::ManifestSchemaError),
                }
            }
        } else if str_eq(key.as_str(), "build-backend") {
            match str_value(val.as_str()) {
                Some(v) => Ok(PState { backend: Some(v), ..st }),
                None => Err(HuakError::ManifestSchemaError),
            }
        } else {
            if str_eq(val.as_str(), "[") {
                Ok(PState { target: ArrTarget::Discard, items: empty_items(), ..st })
            } else {
                Ok(st)
            }
        }
    } else if st.table == Table::OptDeps {
        if str_eq(val.as_str(), "[") {
            Ok(PState { target: ArrTarget::GroupArr(key), items: empty_items(), ..st })
        } else {
            match inline_array(val.as_str()) {
                Some(its) => Ok(commit(st, ArrTarget::GroupArr(key), its)),
                None => Err(HuakError::ManifestSchemaError),
            }
        }
    } else if st.table == Table::Scripts {
        match str_value(val.as_str()) {
            Some(v) => {
                let ghost ss_old = st.scripts.deep_view();
                let ghost sv = ScriptV { name: key@, entry: v@ };
                let mut scripts = st.scripts;
                scripts.push(Script { name: key, entry: v });
                proof {
                    assert(scripts.deep_view() =~= ss_old.push(sv));
                }
                Ok(PState { has_scripts: true, scripts, ..st })
            },
            None => Err(HuakError::ManifestSchemaError),
        }
    } else if st.table == Table::Authors {
        let is_name = str_eq(key.as_str(), "name");
        let is_email = str_eq(key.as_str(), "email");
        if is_name || is_email {
            match str_value(val.as_str()) {
                Some(v) => {
                    if st.authors.len() > 0 {
                        let ghost as_old = st.authors.deep_view();
                        let mut authors = st.authors;
                        match authors.pop() {
                            Some(a) => {
                                let upd = if is_name {
                                    Author { name: Some(v), ..a }
                                } else {
                                    Author { email: Some(v), ..a }
                                };
                                let ghost uv = upd@;
                                authors.push(upd);
                                proof {
                                    assert(authors.deep_view() =~= as_old.update(
                                        as_old.len() - 1,
                                        uv,
                                    ));
                                }
                                Ok(PState { authors, ..st })
                            },
                            None => Ok(PState { authors, ..st }),
                        }
                    } else {
                        Ok(st)
                    }
                },
                None => Err(HuakError::ManifestSchemaError),
            }
        } else {
            if str_eq(val.as_str(), "[") {
                Ok(PState { target: ArrTarget::Discard, items: empty_items(), ..st })
            } else {
                Ok(st)
            }
        }
    } else {
        if str_eq(val.as_str(), "[") {
            Ok(PState { target: ArrTarget::Discard, items: empty_items(), ..st })
        } else {
            Ok(st)
        }
    }
}

/// Applies one raw input line to the state.
#[verifier::rlimit(60)]
fn step(st: PState, raw: &str) -> (r: Result<PState, HuakError>)
    ensures
        match spec_step(st@, raw@) {
            Ok(s2) => r matches Ok(s) && s@ == s2,
            Err(e) => r matches Err(e2) && e2 == e,
        },
{
    let line = trim_str(raw);
    let m = line.as_str().unicode_len();
    let in_arr = match &st.target {
        ArrTarget::NoArr => false,
        _ => true,
    };
    if in_arr {
        if m == 0 || line.as_str().get_char(0) == '#' {
            return Ok(st);
        }
        if str_eq(line.as_str(), "]") {
            let items = st.items;
            let target = st.target;
            let st2 = PState { items: empty_items(), target: ArrTarget::NoArr, ..st };
            let st3 = commit(st2, target, items);
            proof {
                assert(st3@ == PStateV {
                    target: ArrTargetV::NoArr,
                    items: Seq::empty(),
                    ..spec_commit(st@, st@.target, st@.items)
                });
            }
            return Ok(st3);
        }
        let elem = if line.as_str().get_char(m - 1) == ',' {
            trim_str(line.as_str().substring_char(0, m - 1))
        } else {
            line
        };
        match str_value(elem.as_str()) {
            Some(item) => {
                let ghost items_old = st.items.deep_view();
                let ghost iv = item@;
                let mut items = st.items;
                items.push(item);
                proof {
                    assert(items.deep_view() =~= items_old.push(iv));
                }
                return Ok(PState { items, ..st });
            },
            None => {
                return Err(HuakError::ManifestFormatError);
            },
        }
    }
    if m == 0 || line.as_str().get_char(0) == '#' {
        return Ok(st);
    }
    if line.as_str().get_char(0) == '[' {
        if str_eq(line.as_str(), "[project]") {
            return Ok(PState { table: Table::Project, saw_project: true, ..st });
        }
        if str_eq(line.as_str(), "[build-system]") {
            return Ok(PState { table: Table::Build, saw_build: true, ..st });
        }
        if str_eq(line.as_str(), "[project.optional-dependencies]") {
            return Ok(PState { table: Table::OptDeps, has_groups: true, ..st });
        }
        if str_eq(line.as_str(), "[project.scripts]") {
            return Ok(PState { table: Table::Scripts, has_scripts: true, ..st });
        }
        if str_eq(line.as_str(), "[[project.authors]]") {
            let ghost as_old = st.authors.deep_view();
            let mut authors = st.authors;
            authors.push(Author { name: None, email: None });
            proof {
                assert(authors.deep_view() =~= as_old.push(AuthorV { name: None, email: None }));
            }
            return Ok(PState { table: Table::Authors, has_authors: true, authors, ..st });
        }
        if line.as_str().get_char(m - 1) == ']' {
            return Ok(PState { table: Table::Other, ..st });
        }
        return Err(HuakError::ManifestFormatError);
    }
    match find_char(line.as_str(), 0, '=') {
        None => Err(HuakError::ManifestFormatError),
        Some(e) => {
            proof {
                lemma_spec_find_bounds(line@, 0, '=');
            }
            let key = trim_str(line.as_str().substring_char(0, e));
            let val = trim_str(line.as_str().substring_char(e + 1, m));
            if key.as_str().unicode_len() == 0 {
                Err(HuakError::ManifestFormatError)
            } else {
                apply_kv(st, key, val)
            }
        },
    }
}

/// Turns a finished state into a manifest model.
fn finalize(st: PState) -> (r: Result<Toml, HuakError>)
    ensures
        match spec_finalize(st@) {
            Ok(tv) => r matches Ok(t) && t@ == tv,
            Err(e) => r matches Err(e2) && e2 == e,
        },
{
    let in_arr = match &st.target {
        ArrTarget::NoArr => false,
        _ => true,
    };
    if in_arr {
        return Err(HuakError::ManifestFormatError);
    }
    let name = match st.name {
        Some(n) => n,
        None => {
            return Err(HuakError::ManifestSchemaError);
        },
    };
    if !st.saw_project {
        return Err(HuakError::ManifestSchemaError);
    }
    if !st.saw_build || !st.has_requires {
        return Err(HuakError::ManifestSchemaError);
    }
    Ok(
        Toml {
            project: Project {
                name,
                version: st.version,
                description: st.description,
                dependencies: if st.has_deps {
                    Some(st.deps)
                } else {
                    None
                },
                authors: if st.has_authors {
                    Some(st.authors)
                } else {
                    None
                },
                optional_dependencies: if st.has_groups {
                    Some(st.groups)
                } else {
                    None
                },
                scripts: if st.has_scripts {
                    Some(st.scripts)
                } else {
                    None
                },
            },
            build_system: BuildSystem { requires: st.requires, build_backend: st.backend },
        },
    )
}

impl Toml {
    /// Parses manifest text into a model. The result is exactly what
    /// `spec_parse` says: `Ok` with the collected fields when the text is
    /// well-formed and the required fields are present, otherwise the format
    /// or schema error that `spec_parse` assigns.
    pub fn from(s: &str) -> (r: Result<Toml, HuakError>)
        ensures
            match spec_parse(s@) {
                Ok(tv) => r matches Ok(t) && t@ == tv,
                Err(e) => r matches Err(e2) && e2 == e,
            },
    {
        let lines = split_lines(s);
        let ghost lns = spec_lines_from(s@, 0);
        let mut st = PState::new();
        let mut i: usize = 0;
        let n = lines.len();
        while i < n
            invariant
                i <= n,
                n == lines@.len(),
                lines.deep_view() == lns,
                lns == spec_lines_from(s@, 0),
                spec_run(spec_init(), lns, 0) == spec_run(st@, lns, i as int),
            decreases n - i,
        {
            proof {
                assert(lns[i as int] == lines@[i as int]@);
            }
            st = match step(st, lines[i].as_str()) {
                Ok(s2) => s2,
                Err(e) => {
                    return Err(e);
                },
            };
            i = i + 1;
        }
        finalize(st)
    }
}

} // verus!
