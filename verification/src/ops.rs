//! The orchestrator use cases: new-project scaffolding, add/remove
//! dependency, and install-groups resolution.
//!
//! Every function here is a pure decision: it computes the next manifest
//! value, the files to write, or the batch to install, and leaves reading,
//! writing and process invocation to the caller. The persistence step is
//! explicit: `manifest_to_persist` hands out text to write only after the
//! environment mutation succeeded, so the manifest on disk never claims a
//! change that failed to install.

use vstd::prelude::*;
use vstd::string::*;

use crate::dependency::{
    dep_key, key_eq, spec_format_dep, spec_parse_dep, DependencySpecifier,
    DependencySpecifierV,
};
use crate::errors::HuakError;
use crate::manifest::{Group, GroupV, Toml, TomlV};
use crate::project::{
    entry_key, find_group, find_group_idx, find_key, spec_add_dep, spec_bootstrap, spec_remove_dep,
    Project, ScaffoldFile, ScaffoldFileV,
};
use crate::ser::spec_to_string;
use crate::text::str_eq;

verus! {

/// Everything the new-project use case writes to disk: the scaffolding files
/// and the manifest text.
pub struct ScaffoldPlan {
    pub files: Vec<ScaffoldFile>,
    pub manifest_text: String,
}

/// Mathematical value of a [`ScaffoldPlan`].
#[verifier::ext_equal]
pub struct ScaffoldPlanV {
    pub files: Seq<ScaffoldFileV>,
    pub manifest_text: Seq<char>,
}

impl View for ScaffoldPlan {
    type V = ScaffoldPlanV;

    open spec fn view(&self) -> ScaffoldPlanV {
        ScaffoldPlanV { files: self.files.deep_view(), manifest_text: self.manifest_text@ }
    }
}

/// Computes everything a newly created project puts on disk: the scaffolding
/// for the workspace's archetype and the serialized default manifest. The
/// workspace itself is left as it is.
pub fn create_project(project: &mut Project) -> (r: ScaffoldPlan)
    ensures
        *final(project) == *old(project),
        r@.files == spec_bootstrap(
            old(project).project_type,
            old(project)@.project_file.project.name,
        ),
        r@.manifest_text == spec_to_string(old(project)@.project_file),
{
    let files = project.bootstrap();
    let manifest_text = project.project_file.to_string();
    ScaffoldPlan { files, manifest_text }
}

/// The add use case's manifest mutation: parses the requirement string,
/// attaches the group, and adds the specifier to the manifest. `Ok(true)`
/// says the dependency is new or changed, so an install is needed;
/// `Ok(false)` says an identical entry was already present.
pub fn add_project_dependency(
    project: &mut Project,
    dependency: &str,
    group: Option<String>,
) -> (r: Result<bool, HuakError>)
    ensures
        match spec_parse_dep(dependency@) {
            None => r matches Err(HuakError::InvalidSpecifierError) && final(project)@ == old(
                project,
            )@,
            Some(d0) => {
                let d = DependencySpecifierV { group: group.deep_view(), ..d0 };
                let added = spec_add_dep(old(project)@.project_file, d);
                final(project)@.project_file == added.0 && final(project)@.root == old(
                    project,
                )@.root && final(project)@.project_type == old(project)@.project_type && (
                r matches Ok(b) && b == (added.1 != Some(spec_format_dep(d))))
            },
        },
{
    let mut dep = match DependencySpecifier::parse(dependency) {
        Ok(d) => d,
        Err(e) => {
            return Err(e);
        },
    };
    dep.group = group;
    let entry = dep.format();
    let prev = project.add_dependency(&dep);
    match prev {
        Some(p) => Ok(!str_eq(p.as_str(), entry.as_str())),
        None => Ok(true),
    }
}

/// The remove use case's manifest mutation: parses the requirement string
/// and removes the dependency it names from the group or the default list.
/// On any failure the workspace is unchanged.
pub fn remove_project_dependency(
    project: &mut Project,
    dependency: &str,
    group: &Option<String>,
) -> (r: Result<(), HuakError>)
    ensures
        match spec_parse_dep(dependency@) {
            None => r matches Err(HuakError::InvalidSpecifierError) && final(project)@ == old(
                project,
            )@,
            Some(d0) => {
                let d = DependencySpecifierV { group: group.deep_view(), ..d0 };
                match spec_remove_dep(old(project)@.project_file, d) {
                    Ok(t2) => r is Ok && final(project)@.project_file == t2 && final(project)@.root
                        == old(project)@.root && final(project)@.project_type == old(
                        project,
                    )@.project_type,
                    Err(e) => (r matches Err(e2) && e2 == e) && final(project)@ == old(project)@,
                }
            },
        },
{
    let mut dep = match DependencySpecifier::parse(dependency) {
        Ok(d) => d,
        Err(e) => {
            return Err(e);
        },
    };
    dep.group = match group {
        Some(g) => Some(g.clone()),
        None => None,
    };
    project.remove_dependency(&dep)
}

/// The commit step shared by the add and remove use cases: the manifest is
/// handed out for persisting exactly when the installer call succeeded.
pub fn manifest_to_persist(install_ok: bool, project: &Project) -> (r: Option<String>)
    ensures
        install_ok ==> (r matches Some(s) && s@ == spec_to_string(project@.project_file)),
        !install_ok ==> r is None,
{
    if install_ok {
        Some(project.project_file.to_string())
    } else {
        None
    }
}

/// The default list of a manifest, or empty when absent.
pub open spec fn default_list(t: TomlV) -> Seq<Seq<char>> {
    match t.project.dependencies {
        Some(l) => l,
        None => Seq::empty(),
    }
}

/// The groups of a manifest, or empty when absent.
pub open spec fn group_list(t: TomlV) -> Seq<GroupV> {
    match t.project.optional_dependencies {
        Some(gs) => gs,
        None => Seq::empty(),
    }
}

/// Every group's requirements, in group order, from index `i` on.
pub open spec fn all_group_deps(gs: Seq<GroupV>, i: int) -> Seq<Seq<char>>
    decreases gs.len() - i,
{
    if i < 0 || i >= gs.len() {
        Seq::empty()
    } else {
        gs[i].deps + all_group_deps(gs, i + 1)
    }
}

/// The requirements of the named groups, in request order, from index `i`
/// on; a name that matches no group selects nothing.
pub open spec fn named_group_deps(gs: Seq<GroupV>, names: Seq<Seq<char>>, i: int) -> Seq<
    Seq<char>,
>
    decreases names.len() - i,
{
    if i < 0 || i >= names.len() {
        Seq::empty()
    } else {
        (match find_group(gs, names[i], 0) {
            Some(gi) => gs[gi].deps,
            None => Seq::empty(),
        }) + named_group_deps(gs, names, i + 1)
    }
}

/// The flat selection the install use case starts from: the named groups'
/// lists, or the default list followed by every group when none are named.
pub open spec fn spec_selected(t: TomlV, names: Option<Seq<Seq<char>>>) -> Seq<Seq<char>> {
    match names {
        None => default_list(t) + all_group_deps(group_list(t), 0),
        Some(ns) => named_group_deps(group_list(t), ns, 0),
    }
}

/// The selection with later entries of an already-seen normalized name
/// dropped: the first occurrence wins.
pub open spec fn spec_dedup(l: Seq<Seq<char>>) -> Seq<Seq<char>>
    decreases l.len(),
{
    if l.len() == 0 {
        Seq::empty()
    } else {
        let pre = spec_dedup(l.drop_last());
        if find_key(l.drop_last(), dep_key(l.last()), 0) is Some {
            pre
        } else {
            pre.push(l.last())
        }
    }
}

/// A key is findable in a deduplicated list exactly when it is findable in
/// the original.
pub proof fn lemma_dedup_keys(l: Seq<Seq<char>>, k: Seq<char>)
    ensures
        find_key(spec_dedup(l), k, 0) is Some <==> find_key(l, k, 0) is Some,
    decreases l.len(),
{
    if l.len() > 0 {
        let pre = l.drop_last();
        lemma_dedup_keys(pre, k);
        lemma_find_key_push_general(pre, k, l.last());
        lemma_find_key_push_general(spec_dedup(pre), k, l.last());
        assert(pre.push(l.last()) =~= l);
        if find_key(pre, dep_key(l.last()), 0) is Some {
            lemma_dedup_keys(pre, dep_key(l.last()));
        }
    }
}

/// Finding a key in `l.push(x)` succeeds exactly when it is in `l` or `x`
/// carries it.
proof fn lemma_find_key_push_general(l: Seq<Seq<char>>, k: Seq<char>, x: Seq<char>)
    ensures
        find_key(l.push(x), k, 0) is Some <==> (find_key(l, k, 0) is Some || dep_key(x) == k),
{
    lemma_find_key_push_from(l, k, x, 0);
}

proof fn lemma_find_key_push_from(l: Seq<Seq<char>>, k: Seq<char>, x: Seq<char>, j: int)
    requires
        0 <= j <= l.len(),
    ensures
        find_key(l.push(x), k, j) is Some <==> (find_key(l, k, j) is Some || dep_key(x) == k),
    decreases l.len() - j,
{
    if j < l.len() {
        assert(l.push(x)[j] == l[j]);
        lemma_find_key_push_from(l, k, x, j + 1);
    } else {
        assert(l.push(x)[j] == x);
        assert(find_key(l.push(x), k, j + 1) is None);
    }
}

/// Appends a copy of every entry of `l` to `out`.
fn extend_list(out: &mut Vec<String>, l: &Vec<String>)
    ensures
        final(out).deep_view() == old(out).deep_view() + l.deep_view(),
{
    let ghost base = old(out).deep_view();
    let ghost lv = l.deep_view();
    let n = l.len();
    let mut i: usize = 0;
    while i < n
        invariant
            i <= n,
            n == l@.len(),
            lv == l.deep_view(),
            out.deep_view() == base + lv.take(i as int),
        decreases n - i,
    {
        let ghost before = out.deep_view();
        out.push(l[i].clone());
        proof {
            assert(out.deep_view() =~= before.push(lv[i as int]));
            assert(before.push(lv[i as int]) =~= base + lv.take(i as int + 1));
        }
        i = i + 1;
    }
    proof {
        assert(lv.take(n as int) =~= lv);
    }
}

/// Does some entry of `l` carry key `k`?
fn has_key(l: &Vec<String>, key: &Vec<char>) -> (r: bool)
    ensures
        r == (find_key(l.deep_view(), key@, 0) is Some),
{
    let ghost dv = l.deep_view();
    let n = l.len();
    let mut i: usize = 0;
    while i < n
        invariant
            i <= n,
            n == l@.len(),
            dv == l.deep_view(),
            find_key(dv, key@, 0) == find_key(dv, key@, i as int),
        decreases n - i,
    {
        let ek = entry_key(l[i].as_str());
        if key_eq(&ek, key) {
            proof {
                assert(dv[i as int] == l@[i as int]@);
                assert(find_key(dv, key@, i as int) == Some(i as int));
            }
            return true;
        }
        i = i + 1;
    }
    false
}

/// Drops every entry whose normalized name already occurred.
fn dedup_list(sel: Vec<String>) -> (r: Vec<String>)
    ensures
        r.deep_view() == spec_dedup(sel.deep_view()),
{
    let ghost sv = sel.deep_view();
    let n = sel.len();
    let mut out: Vec<String> = Vec::new();
    proof {
        assert(out.deep_view() =~= Seq::<Seq<char>>::empty());
        assert(sv.take(0) =~= Seq::<Seq<char>>::empty());
    }
    let mut i: usize = 0;
    while i < n
        invariant
            i <= n,
            n == sel@.len(),
            sv == sel.deep_view(),
            out.deep_view() == spec_dedup(sv.take(i as int)),
        decreases n - i,
    {
        let key = entry_key(sel[i].as_str());
        let ghost before = out.deep_view();
        proof {
            assert(sv[i as int] == sel@[i as int]@);
            assert(sv.take(i as int + 1).drop_last() =~= sv.take(i as int));
            assert(sv.take(i as int + 1).last() == sv[i as int]);
            lemma_dedup_keys(sv.take(i as int), key@);
        }
        if !has_key(&out, &key) {
            out.push(sel[i].clone());
            proof {
                assert(out.deep_view() =~= before.push(sv[i as int]));
            }
        }
        i = i + 1;
    }
    proof {
        assert(sv.take(n as int) =~= sv);
    }
    out
}

/// The install use case's batch: the requested groups' requirement lists, or
/// the default list plus every group when none are requested, flattened and
/// de-duplicated by normalized name with the first occurrence kept. The
/// manifest itself is never mutated.
pub fn resolve_install_targets(toml: &Toml, groups: &Option<Vec<String>>) -> (r: Vec<String>)
    ensures
        r.deep_view() == spec_dedup(spec_selected(toml@, groups.deep_view())),
{
    let empty_gs: Vec<Group> = Vec::new();
    let gs: &Vec<Group> = match &toml.project.optional_dependencies {
        Some(gs) => gs,
        None => &empty_gs,
    };
    proof {
        assert(gs.deep_view() =~= group_list(toml@));
    }
    let ghost gv = gs.deep_view();
    let mut sel: Vec<String> = Vec::new();
    proof {
        assert(sel.deep_view() =~= Seq::<Seq<char>>::empty());
    }
    match groups {
        None => {
            match &toml.project.dependencies {
                Some(l) => {
                    extend_list(&mut sel, l);
                    proof {
                        assert(sel.deep_view() =~= default_list(toml@));
                    }
                },
                None => {
                    proof {
                        assert(sel.deep_view() =~= default_list(toml@));
                    }
                },
            }
            let ghost base = sel.deep_view();
            let n = gs.len();
            let mut i: usize = 0;
            while i < n
                invariant
                    i <= n,
                    n == gs@.len(),
                    gv == gs.deep_view(),
                    base + all_group_deps(gv, 0) == sel.deep_view() + all_group_deps(
                        gv,
                        i as int,
                    ),
                decreases n - i,
            {
                let ghost before = sel.deep_view();
                extend_list(&mut sel, &gs[i].deps);
                proof {
                    assert(gv[i as int] == gs@[i as int]@);
                    assert(before + all_group_deps(gv, i as int) =~= sel.deep_view()
                        + all_group_deps(gv, i + 1));
                }
                i = i + 1;
            }
            proof {
                assert(all_group_deps(gv, n as int) == Seq::<Seq<char>>::empty());
                assert(sel.deep_view() =~= base + all_group_deps(gv, 0));
                assert(sel.deep_view() =~= spec_selected(toml@, groups.deep_view()));
            }
        },
        Some(names) => {
            let ghost nv = names.deep_view();
            let n = names.len();
            let mut i: usize = 0;
            while i < n
                invariant
                    i <= n,
                    n == names@.len(),
                    nv == names.deep_view(),
                    gv == gs.deep_view(),
                    named_group_deps(gv, nv, 0) == sel.deep_view() + named_group_deps(
                        gv,
                        nv,
                        i as int,
                    ),
                decreases n - i,
            {
                let ghost before = sel.deep_view();
                proof {
                    assert(nv[i as int] == names@[i as int]@);
                }
                match find_group_idx(gs, names[i].as_str()) {
                    Some(gi) => {
                        proof {
                            crate::project::lemma_find_group_bounds(gv, nv[i as int], 0);
                        }
                        extend_list(&mut sel, &gs[gi].deps);
                        proof {
                            assert(gv[gi as int] == gs@[gi as int]@);
                            assert(before + named_group_deps(gv, nv, i as int)
                                =~= sel.deep_view() + named_group_deps(gv, nv, i + 1));
                        }
                    },
                    None => {
                        proof {
                            assert(before + named_group_deps(gv, nv, i as int)
                                =~= sel.deep_view() + named_group_deps(gv, nv, i + 1));
                        }
                    },
                }
                i = i + 1;
            }
            proof {
                assert(named_group_deps(gv, nv, n as int) == Seq::<Seq<char>>::empty());
                assert(sel.deep_view() =~= named_group_deps(gv, nv, 0));
                assert(sel.deep_view() =~= spec_selected(toml@, groups.deep_view()));
            }
        },
    }
    dedup_list(sel)
}

} // verus!
