//! Serialization of a manifest to its canonical text layout.
//!
//! `Toml::to_string` is total and deterministic: equal manifest values give
//! byte-identical output. The layout is fixed: `[project]` scalar fields in
//! order, then `dependencies` as a multi-line array, then one
//! `[[project.authors]]` table per author, then
//! `[project.optional-dependencies]` with each group's array multi-line, then
//! `[project.scripts]`, then `[build-system]`.

use vstd::prelude::*;
use vstd::string::*;

use crate::manifest::{Author, AuthorV, Group, GroupV, Script, ScriptV, Toml, TomlV};

verus! {

/// A character that must be written as an escape sequence inside a quoted
/// value: the quote itself, the backslash, and the line break (which would
/// otherwise end the line).
pub open spec fn needs_escape(c: char) -> bool {
    c == '"' || c == '\\' || c == '\n'
}

/// The text written for one character of a value.
pub open spec fn esc_char(c: char) -> Seq<char> {
    if c == '"' {
        seq!['\\', '"']
    } else if c == '\\' {
        seq!['\\', '\\']
    } else if c == '\n' {
        seq!['\\', 'n']
    } else {
        seq![c]
    }
}

/// The escaped form of `v` from index `i` on.
pub open spec fn escape(v: Seq<char>, i: int) -> Seq<char>
    decreases v.len() - i,
{
    if i < 0 || i >= v.len() {
        Seq::empty()
    } else {
        esc_char(v[i]) + escape(v, i + 1)
    }
}

/// Over a run of characters that need no escaping, escaping is the
/// identity.
pub proof fn lemma_escape_plain_run(v: Seq<char>, i: int, j: int)
    requires
        0 <= i <= j <= v.len(),
        forall|m: int| i <= m < j ==> !needs_escape(v[m]),
    ensures
        escape(v, i) == v.subrange(i, j) + escape(v, j),
    decreases j - i,
{
    if i < j {
        lemma_escape_plain_run(v, i + 1, j);
        assert(esc_char(v[i]) == seq![v[i]]);
        assert(v.subrange(i, j) =~= seq![v[i]] + v.subrange(i + 1, j));
        assert(escape(v, i) =~= v.subrange(i, j) + escape(v, j));
    } else {
        assert(escape(v, i) =~= v.subrange(i, i) + escape(v, i));
    }
}

/// `v` escaped and wrapped in double quotes.
pub open spec fn quote(v: Seq<char>) -> Seq<char> {
    "\""@ + escape(v, 0) + "\""@
}

/// Appends the escaped form of `v`.
fn append_escaped(out: &mut String, v: &str)
    ensures
        final(out)@ == old(out)@ + escape(v@, 0),
{
    let ghost base = old(out)@;
    let n = v.unicode_len();
    let mut i: usize = 0;
    let mut j: usize = 0;
    while j < n
        invariant
            i <= j <= n,
            n == v@.len(),
            base == old(out)@,
            out@ + escape(v@, i as int) == base + escape(v@, 0),
            forall|m: int| i <= m < j ==> !needs_escape(v@[m]),
        decreases n - j,
    {
        let c = v.get_char(j);
        if c == '"' || c == '\\' || c == '\n' {
            proof {
                lemma_escape_plain_run(v@, i as int, j as int);
            }
            let ghost before = out@;
            out.append(v.substring_char(i, j));
            if c == '"' {
                out.append("\\\"");
            } else if c == '\\' {
                out.append("\\\\");
            } else {
                out.append("\\n");
            }
            proof {
                reveal_strlit("\\\"");
                reveal_strlit("\\\\");
                reveal_strlit("\\n");
                assert(out@ =~= before + (v@.subrange(i as int, j as int) + esc_char(
                    v@[j as int],
                )));
                assert(out@ + escape(v@, j as int + 1) =~= before + escape(v@, i as int));
            }
            i = j + 1;
            j = j + 1;
        } else {
            j = j + 1;
        }
    }
    proof {
        lemma_escape_plain_run(v@, i as int, n as int);
        assert(escape(v@, n as int) == Seq::<char>::empty());
    }
    out.append(v.substring_char(i, n));
    proof {
        assert(out@ =~= base + escape(v@, 0));
    }
}

/// One `key = "value"` line.
pub open spec fn kv_line(key: Seq<char>, v: Seq<char>) -> Seq<char> {
    key + " = "@ + quote(v) + "\n"@
}

/// The element lines of a multi-line array, from index `i` on.
pub open spec fn multi_items(items: Seq<Seq<char>>, i: int) -> Seq<char>
    decreases items.len() - i,
{
    if i < 0 || i >= items.len() {
        Seq::empty()
    } else {
        "    "@ + quote(items[i]) + ",\n"@ + multi_items(items, i + 1)
    }
}

/// A multi-line array value (one indented element per line), `[]` if empty.
pub open spec fn multi_arr(items: Seq<Seq<char>>) -> Seq<char> {
    if items.len() == 0 {
        "[]\n"@
    } else {
        "[\n"@ + multi_items(items, 0) + "]\n"@
    }
}

/// The elements of a single-line array, separated by `, `, from index `i` on.
pub open spec fn inline_items(items: Seq<Seq<char>>, i: int) -> Seq<char>
    decreases items.len() - i,
{
    if i < 0 || i >= items.len() {
        Seq::empty()
    } else if i == 0 {
        quote(items[0]) + inline_items(items, 1)
    } else {
        ", "@ + quote(items[i]) + inline_items(items, i + 1)
    }
}

/// A single-line array value.
pub open spec fn inline_arr(items: Seq<Seq<char>>) -> Seq<char> {
    "["@ + inline_items(items, 0) + "]"@
}

/// One `[[project.authors]]` table.
pub open spec fn author_block(a: AuthorV) -> Seq<char> {
    "\n[[project.authors]]\n"@ + (match a.name {
        Some(n) => kv_line("name"@, n),
        None => Seq::empty(),
    }) + (match a.email {
        Some(e) => kv_line("email"@, e),
        None => Seq::empty(),
    })
}

/// The author tables from index `i` on.
pub open spec fn authors_blocks(aus: Seq<AuthorV>, i: int) -> Seq<char>
    decreases aus.len() - i,
{
    if i < 0 || i >= aus.len() {
        Seq::empty()
    } else {
        author_block(aus[i]) + authors_blocks(aus, i + 1)
    }
}

/// One optional-dependency group entry.
pub open spec fn group_block(g: GroupV) -> Seq<char> {
    g.name + " = "@ + multi_arr(g.deps)
}

/// The group entries from index `i` on.
pub open spec fn groups_blocks(gs: Seq<GroupV>, i: int) -> Seq<char>
    decreases gs.len() - i,
{
    if i < 0 || i >= gs.len() {
        Seq::empty()
    } else {
        group_block(gs[i]) + groups_blocks(gs, i + 1)
    }
}

/// One `scripts` entry line.
pub open spec fn script_line(s: ScriptV) -> Seq<char> {
    kv_line(s.name, s.entry)
}

/// The script lines from index `i` on.
pub open spec fn scripts_lines(ss: Seq<ScriptV>, i: int) -> Seq<char>
    decreases ss.len() - i,
{
    if i < 0 || i >= ss.len() {
        Seq::empty()
    } else {
        script_line(ss[i]) + scripts_lines(ss, i + 1)
    }
}

/// The full canonical text of a manifest value.
pub open spec fn spec_to_string(t: TomlV) -> Seq<char> {
    "[project]\n"@ + kv_line("name"@, t.project.name) + (match t.project.version {
        Some(v) => kv_line("version"@, v),
        None => Seq::empty(),
    }) + (match t.project.description {
        Some(d) => kv_line("description"@, d),
        None => Seq::empty(),
    }) + (match t.project.dependencies {
        Some(ds) => "dependencies = "@ + multi_arr(ds),
        None => Seq::empty(),
    }) + (match t.project.authors {
        Some(aus) => authors_blocks(aus, 0),
        None => Seq::empty(),
    }) + (match t.project.optional_dependencies {
        Some(gs) => "\n[project.optional-dependencies]\n"@ + groups_blocks(gs, 0),
        None => Seq::empty(),
    }) + (match t.project.scripts {
        Some(ss) => "\n[project.scripts]\n"@ + scripts_lines(ss, 0),
        None => Seq::empty(),
    }) + "\n[build-system]\n"@ + "requires = "@ + inline_arr(t.build_system.requires) + "\n"@
        + (match t.build_system.build_backend {
        Some(b) => kv_line("build-backend"@, b),
        None => Seq::empty(),
    })
}

/// Appends one `key = "value"` line.
fn append_kv(out: &mut String, key: &str, v: &str)
    ensures
        final(out)@ == old(out)@ + kv_line(key@, v@),
{
    out.append(key);
    out.append(" = ");
    out.append("\"");
    append_escaped(out, v);
    out.append("\"");
    out.append("\n");
    proof {
        assert(out@ =~= old(out)@ + kv_line(key@, v@));
    }
}

/// Appends a multi-line array value.
fn append_multi_arr(out: &mut String, items: &Vec<String>)
    ensures
        final(out)@ == old(out)@ + multi_arr(items.deep_view()),
{
    let ghost dv = items.deep_view();
    let n = items.len();
    if n == 0 {
        out.append("[]\n");
        return;
    }
    out.append("[\n");
    let mut i: usize = 0;
    while i < n
        invariant
            i <= n,
            n == items@.len(),
            n > 0,
            dv == items.deep_view(),
            old(out)@ + "[\n"@ + multi_items(dv, 0) == out@ + multi_items(dv, i as int),
        decreases n - i,
    {
        let ghost before = out@;
        out.append("    ");
        out.append("\"");
        append_escaped(out, items[i].as_str());
        out.append("\"");
        out.append(",\n");
        proof {
            assert(dv[i as int] == items@[i as int]@);
            assert(out@ =~= before + ("    "@ + quote(dv[i as int]) + ",\n"@));
            assert(before + multi_items(dv, i as int) =~= out@ + multi_items(dv, i + 1));
        }
        i = i + 1;
    }
    out.append("]\n");
    proof {
        assert(multi_items(dv, n as int) == Seq::<char>::empty());
        assert(out@ =~= old(out)@ + multi_arr(dv));
    }
}

/// Appends a single-line array value.
fn append_inline_arr(out: &mut String, items: &Vec<String>)
    ensures
        final(out)@ == old(out)@ + inline_arr(items.deep_view()),
{
    let ghost dv = items.deep_view();
    let n = items.len();
    out.append("[");
    let mut i: usize = 0;
    while i < n
        invariant
            i <= n,
            n == items@.len(),
            dv == items.deep_view(),
            old(out)@ + "["@ + inline_items(dv, 0) == out@ + inline_items(dv, i as int),
        decreases n - i,
    {
        let ghost before = out@;
        if i > 0 {
            out.append(", ");
        }
        out.append("\"");
        append_escaped(out, items[i].as_str());
        out.append("\"");
        proof {
            assert(dv[i as int] == items@[i as int]@);
            if i == 0 {
                assert(out@ =~= before + quote(dv[0]));
            } else {
                assert(out@ =~= before + (", "@ + quote(dv[i as int])));
            }
            assert(before + inline_items(dv, i as int) =~= out@ + inline_items(dv, i + 1));
        }
        i = i + 1;
    }
    out.append("]");
    proof {
        assert(inline_items(dv, n as int) == Seq::<char>::empty());
        assert(out@ =~= old(out)@ + inline_arr(dv));
    }
}

/// Appends one `[[project.authors]]` table per author.
fn append_authors(out: &mut String, aus: &Vec<Author>)
    ensures
        final(out)@ == old(out)@ + authors_blocks(aus.deep_view(), 0),
{
    let ghost dv = aus.deep_view();
    let n = aus.len();
    let mut i: usize = 0;
    while i < n
        invariant
            i <= n,
            n == aus@.len(),
            dv == aus.deep_view(),
            old(out)@ + authors_blocks(dv, 0) == out@ + authors_blocks(dv, i as int),
        decreases n - i,
    {
        let ghost before = out@;
        out.append("\n[[project.authors]]\n");
        match &aus[i].name {
            Some(nm) => append_kv(out, "name", nm.as_str()),
            None => {},
        }
        match &aus[i].email {
            Some(em) => append_kv(out, "email", em.as_str()),
            None => {},
        }
        proof {
            assert(dv[i as int] == aus@[i as int]@);
            assert(out@ =~= before + author_block(dv[i as int]));
            assert(before + authors_blocks(dv, i as int) =~= out@ + authors_blocks(dv, i + 1));
        }
        i = i + 1;
    }
}

/// Appends each optional-dependency group entry.
fn append_groups(out: &mut String, gs: &Vec<Group>)
    ensures
        final(out)@ == old(out)@ + groups_blocks(gs.deep_view(), 0),
{
    let ghost dv = gs.deep_view();
    let n = gs.len();
    let mut i: usize = 0;
    while i < n
        invariant
            i <= n,
            n == gs@.len(),
            dv == gs.deep_view(),
            old(out)@ + groups_blocks(dv, 0) == out@ + groups_blocks(dv, i as int),
        decreases n - i,
    {
        let ghost before = out@;
        out.append(gs[i].name.as_str());
        out.append(" = ");
        append_multi_arr(out, &gs[i].deps);
        proof {
            assert(dv[i as int] == gs@[i as int]@);
            assert(out@ =~= before + group_block(dv[i as int]));
            assert(before + groups_blocks(dv, i as int) =~= out@ + groups_blocks(dv, i + 1));
        }
        i = i + 1;
    }
}

/// Appends each `scripts` entry line.
fn append_scripts(out: &mut String, ss: &Vec<Script>)
    ensures
        final(out)@ == old(out)@ + scripts_lines(ss.deep_view(), 0),
{
    let ghost dv = ss.deep_view();
    let n = ss.len();
    let mut i: usize = 0;
    while i < n
        invariant
            i <= n,
            n == ss@.len(),
            dv == ss.deep_view(),
            old(out)@ + scripts_lines(dv, 0) == out@ + scripts_lines(dv, i as int),
        decreases n - i,
    {
        let ghost before = out@;
        append_kv(out, ss[i].name.as_str(), ss[i].entry.as_str());
        proof {
            assert(dv[i as int] == ss@[i as int]@);
            assert(before + scripts_lines(dv, i as int) =~= out@ + scripts_lines(dv, i + 1));
        }
        i = i + 1;
    }
}

impl Toml {
    /// Serializes the manifest to its canonical text. Total and
    /// deterministic: the result is exactly `spec_to_string` of the model's
    /// value.
    #[verifier::rlimit(100)]
    pub fn to_string(&self) -> (r: String)
        ensures
            r@ == spec_to_string(self@),
    {
        let ghost t = self@;
        let mut out = String::new();
        out.append("[project]\n");
        append_kv(&mut out, "name", self.project.name.as_str());
        let ghost exp = "[project]\n"@ + kv_line("name"@, t.project.name);
        proof {
            assert(out@ =~= exp);
        }
        match &self.project.version {
            Some(v) => append_kv(&mut out, "version", v.as_str()),
            None => {},
        }
        let ghost exp = exp + (match t.project.version {
            Some(v) => kv_line("version"@, v),
            None => Seq::<char>::empty(),
        });
        proof {
            assert(out@ =~= exp);
        }
        match &self.project.description {
            Some(d) => append_kv(&mut out, "description", d.as_str()),
            None => {},
        }
        let ghost exp = exp + (match t.project.description {
            Some(d) => kv_line("description"@, d),
            None => Seq::<char>::empty(),
        });
        proof {
            assert(out@ =~= exp);
        }
        match &self.project.dependencies {
            Some(ds) => {
                out.append("dependencies = ");
                append_multi_arr(&mut out, ds);
            },
            None => {},
        }
        let ghost exp = exp + (match t.project.dependencies {
            Some(ds) => "dependencies = "@ + multi_arr(ds),
            None => Seq::<char>::empty(),
        });
        proof {
            assert(out@ =~= exp);
        }
        match &self.project.authors {
            Some(aus) => append_authors(&mut out, aus),
            None => {},
        }
        let ghost exp = exp + (match t.project.authors {
            Some(aus) => authors_blocks(aus, 0),
            None => Seq::<char>::empty(),
        });
        proof {
            assert(out@ =~= exp);
        }
        match &self.project.optional_dependencies {
            Some(gs) => {
                out.append("\n[project.optional-dependencies]\n");
                append_groups(&mut out, gs);
            },
            None => {},
        }
        let ghost exp = exp + (match t.project.optional_dependencies {
            Some(gs) => "\n[project.optional-dependencies]\n"@ + groups_blocks(gs, 0),
            None => Seq::<char>::empty(),
        });
        proof {
            assert(out@ =~= exp);
        }
        match &self.project.scripts {
            Some(ss) => {
                out.append("\n[project.scripts]\n");
                append_scripts(&mut out, ss);
            },
            None => {},
        }
        let ghost exp = exp + (match t.project.scripts {
            Some(ss) => "\n[project.scripts]\n"@ + scripts_lines(ss, 0),
            None => Seq::<char>::empty(),
        });
        proof {
            assert(out@ =~= exp);
        }
        out.append("\n[build-system]\n");
        out.append("requires = ");
        append_inline_arr(&mut out, &self.build_system.requires);
        out.append("\n");
        let ghost exp = exp + "\n[build-system]\n"@ + "requires = "@ + inline_arr(
            t.build_system.requires,
        ) + "\n"@;
        proof {
            assert(out@ =~= exp);
        }
        match &self.build_system.build_backend {
            Some(b) => append_kv(&mut out, "build-backend", b.as_str()),
            None => {},
        }
        let ghost exp = exp + (match t.build_system.build_backend {
            Some(b) => kv_line("build-backend"@, b),
            None => Seq::<char>::empty(),
        });
        proof {
            assert(out@ =~= exp);
            assert(exp == spec_to_string(t));
        }
        out
    }
}

} // verus!
