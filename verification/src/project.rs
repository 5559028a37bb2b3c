//! The project workspace: a root directory, the loaded manifest model and
//! the project archetype, with the dependency mutations and the scaffolding
//! plan of a newly created project.

use vstd::prelude::*;
use vstd::string::*;

use crate::dependency::{
    dep_key, find_op, key_eq, normalize_key, normalized_key, spec_format_dep,
    DependencySpecifier, DependencySpecifierV,
};
use crate::errors::HuakError;
use crate::manifest::{Group, GroupV, ProjectType, Toml, TomlV};
use crate::text::str_eq;

verus! {

/// Index of the last occurrence of `c` at or before `i`, if any.
pub open spec fn rfind(s: Seq<char>, i: int, c: char) -> Option<int>
    decreases i + 1,
{
    if i < 0 || i >= s.len() {
        None
    } else if s[i] == c {
        Some(i)
    } else {
        rfind(s, i - 1, c)
    }
}

/// The last path component of `p`: everything after the last `/`.
pub open spec fn dir_name(p: Seq<char>) -> Seq<char> {
    match rfind(p, p.len() - 1, '/') {
        Some(k) => p.subrange(k + 1, p.len() as int),
        None => p,
    }
}

proof fn lemma_rfind_bounds(s: Seq<char>, i: int, c: char)
    requires
        i < s.len(),
    ensures
        rfind(s, i, c) matches Some(k) ==> 0 <= k <= i && s[k] == c,
    decreases i + 1,
{
    if 0 <= i && s[i] != c {
        lemma_rfind_bounds(s, i - 1, c);
    }
}

/// The last path component of `p`.
pub fn dir_name_of(p: &str) -> (r: String)
    ensures
        r@ == dir_name(p@),
{
    let n = p.unicode_len();
    if n == 0 {
        return p.to_owned();
    }
    let mut i = n;
    while i > 0
        invariant_except_break
            i <= n,
            n == p@.len(),
            rfind(p@, n as int - 1, '/') == rfind(p@, i as int - 1, '/'),
        ensures
            i <= n,
            n == p@.len(),
            if i > 0 {
                rfind(p@, n as int - 1, '/') == Some(i as int - 1)
            } else {
                rfind(p@, n as int - 1, '/') is None
            },
        decreases i,
    {
        if p.get_char(i - 1) == '/' {
            break;
        }
        i = i - 1;
    }
    p.substring_char(i, n).to_owned()
}

/// Index of the first entry of `l`, at or after `i`, whose requirement
/// string has normalized-name key `k`.
pub open spec fn find_key(l: Seq<Seq<char>>, k: Seq<char>, i: int) -> Option<int>
    decreases l.len() - i,
{
    if i < 0 || i >= l.len() {
        None
    } else if dep_key(l[i]) == k {
        Some(i)
    } else {
        find_key(l, k, i + 1)
    }
}

pub proof fn lemma_find_key_bounds(l: Seq<Seq<char>>, k: Seq<char>, i: int)
    requires
        0 <= i,
    ensures
        find_key(l, k, i) matches Some(j) ==> i <= j < l.len() && dep_key(l[j]) == k,
    decreases l.len() - i,
{
    if i < l.len() && dep_key(l[i]) != k {
        lemma_find_key_bounds(l, k, i + 1);
    }
}


/// Removing index `i` and inserting `x` back at `i` is an in-place update.
proof fn lemma_remove_insert_update<A>(s: Seq<A>, i: int, x: A)
    requires
        0 <= i < s.len(),
    ensures
        s.remove(i).insert(i, x) == s.update(i, x),
{
    assert(s.remove(i).insert(i, x) =~= s.update(i, x));
}

/// A requirement list after adding `e` under key `k`: the first entry with
/// the same key is replaced in place, otherwise `e` is appended.
pub open spec fn spec_add_list(l: Seq<Seq<char>>, e: Seq<char>, k: Seq<char>) -> Seq<Seq<char>> {
    match find_key(l, k, 0) {
        Some(i) => l.update(i, e),
        None => l.push(e),
    }
}

/// The entry an add under key `k` replaces, if any.
pub open spec fn spec_prev(l: Seq<Seq<char>>, k: Seq<char>) -> Option<Seq<char>> {
    match find_key(l, k, 0) {
        Some(i) => Some(l[i]),
        None => None,
    }
}

/// No two entries of the list share a normalized-name key.
pub open spec fn wf_list(l: Seq<Seq<char>>) -> bool {
    forall|i: int, j: int| 0 <= i < j < l.len() ==> dep_key(l[i]) != dep_key(l[j])
}

/// The comparison key of a whole requirement string.
pub fn entry_key(s: &str) -> (r: Vec<char>)
    ensures
        r@ == dep_key(s@),
{
    let n = s.unicode_len();
    let mut i: usize = 0;
    while i < n
        invariant
            i <= n,
            n == s@.len(),
            find_op(s@, 0) == find_op(s@, i as int),
        decreases n - i,
    {
        let c = s.get_char(i);
        let op_here = if c == '>' || c == '<' {
            true
        } else if (c == '=' || c == '~' || c == '!') && i + 1 < n {
            s.get_char(i + 1) == '='
        } else {
            false
        };
        if op_here {
            return normalized_key(s.substring_char(0, i));
        }
        i = i + 1;
    }
    normalized_key(s)
}

/// Adds `entry` under `key`: replaces the first entry with the same key in
/// place and hands it back, or appends.
fn list_add(l: &mut Vec<String>, entry: String, key: &Vec<char>) -> (r: Option<String>)
    ensures
        final(l).deep_view() == spec_add_list(old(l).deep_view(), entry@, key@),
        r.deep_view() == spec_prev(old(l).deep_view(), key@),
{
    let ghost dv = old(l).deep_view();
    let n = l.len();
    let mut i: usize = 0;
    while i < n
        invariant
            i <= n,
            n == l@.len(),
            dv == l.deep_view(),
            dv == old(l).deep_view(),
            find_key(dv, key@, 0) == find_key(dv, key@, i as int),
        decreases n - i,
    {
        let ek = entry_key(l[i].as_str());
        if key_eq(&ek, key) {
            proof {
                assert(dv[i as int] == l@[i as int]@);
                assert(dep_key(dv[i as int]) == key@);
                assert(find_key(dv, key@, i as int) == Some(i as int));
            }
            let ghost ev = entry@;
            let ghost l0 = l@;
            let old_entry = l.remove(i);
            l.insert(i, entry);
            proof {
                lemma_remove_insert_update(l0, i as int, entry);
                assert(l.deep_view() =~= dv.update(i as int, ev));
                assert(old_entry@ == dv[i as int]);
            }
            return Some(old_entry);
        }
        i = i + 1;
    }
    proof {
        assert(find_key(dv, key@, n as int) is None);
    }
    let ghost ev = entry@;
    l.push(entry);
    proof {
        assert(l.deep_view() =~= dv.push(ev));
    }
    None
}

/// Removes the first entry with key `k`, if any.
pub open spec fn spec_remove_list(l: Seq<Seq<char>>, k: Seq<char>) -> Option<Seq<Seq<char>>> {
    match find_key(l, k, 0) {
        Some(i) => Some(l.remove(i)),
        None => None,
    }
}

/// Removes the first entry with `key`; `None` when no entry has it.
fn list_remove(l: &mut Vec<String>, key: &Vec<char>) -> (r: bool)
    ensures
        match spec_remove_list(old(l).deep_view(), key@) {
            Some(l2) => r && final(l).deep_view() == l2,
            None => !r && final(l).deep_view() == old(l).deep_view(),
        },
{
    let ghost dv = old(l).deep_view();
    let n = l.len();
    let mut i: usize = 0;
    while i < n
        invariant
            i <= n,
            n == l@.len(),
            dv == l.deep_view(),
            dv == old(l).deep_view(),
            find_key(dv, key@, 0) == find_key(dv, key@, i as int),
        decreases n - i,
    {
        let ek = entry_key(l[i].as_str());
        if key_eq(&ek, key) {
            proof {
                assert(dv[i as int] == l@[i as int]@);
                assert(dep_key(dv[i as int]) == key@);
                assert(find_key(dv, key@, i as int) == Some(i as int));
            }
            let _removed = l.remove(i);
            proof {
                assert(l.deep_view() =~= dv.remove(i as int));
            }
            return true;
        }
        i = i + 1;
    }
    proof {
        assert(find_key(dv, key@, n as int) is None);
    }
    false
}

/// Index of the group named `g`, at or after `i`.
pub open spec fn find_group(gs: Seq<GroupV>, g: Seq<char>, i: int) -> Option<int>
    decreases gs.len() - i,
{
    if i < 0 || i >= gs.len() {
        None
    } else if gs[i].name == g {
        Some(i)
    } else {
        find_group(gs, g, i + 1)
    }
}

pub proof fn lemma_find_group_bounds(gs: Seq<GroupV>, g: Seq<char>, i: int)
    requires
        0 <= i,
    ensures
        find_group(gs, g, i) matches Some(j) ==> i <= j < gs.len() && gs[j].name == g,
    decreases gs.len() - i,
{
    if i < gs.len() && gs[i].name != g {
        lemma_find_group_bounds(gs, g, i + 1);
    }
}

/// Index of the group named `g`.
pub(crate) fn find_group_idx(gs: &Vec<Group>, g: &str) -> (r: Option<usize>)
    ensures
        match find_group(gs.deep_view(), g@, 0) {
            Some(i) => r matches Some(x) && x as int == i,
            None => r is None,
        },
{
    let ghost dv = gs.deep_view();
    let n = gs.len();
    let mut i: usize = 0;
    while i < n
        invariant
            i <= n,
            n == gs@.len(),
            dv == gs.deep_view(),
            find_group(dv, g@, 0) == find_group(dv, g@, i as int),
        decreases n - i,
    {
        if str_eq(gs[i].name.as_str(), g) {
            return Some(i);
        }
        i = i + 1;
    }
    None
}

/// A file of the scaffolding plan: a path relative to the workspace root and
/// the text to write there.
pub struct ScaffoldFile {
    pub path: String,
    pub contents: String,
}

/// Mathematical value of a [`ScaffoldFile`].
#[verifier::ext_equal]
pub struct ScaffoldFileV {
    pub path: Seq<char>,
    pub contents: Seq<char>,
}

impl View for ScaffoldFile {
    type V = ScaffoldFileV;

    open spec fn view(&self) -> ScaffoldFileV {
        ScaffoldFileV { path: self.path@, contents: self.contents@ }
    }
}

impl DeepView for ScaffoldFile {
    type V = ScaffoldFileV;

    open spec fn deep_view(&self) -> ScaffoldFileV {
        self.view()
    }
}

/// The entry file of an application: a `main` that prints a greeting.
pub open spec fn spec_main_py() -> Seq<char> {
    "def main():\n    print(\"Hello, World!\")\n\n\nif __name__ == \"__main__\":\n    main()\n"@
}

/// The initializer of a library: it exposes a version symbol.
pub open spec fn spec_init_py() -> Seq<char> {
    "__version__ = \"0.0.1\"\n"@
}

/// The single test of a library: it imports the version symbol.
pub open spec fn spec_test_py(name: Seq<char>) -> Seq<char> {
    "from "@ + name + " import __version__\n\n\ndef test_version():\n    __version__\n"@
}

/// The scaffolding plan of a project named `name` with archetype `t`.
pub open spec fn spec_bootstrap(t: ProjectType, name: Seq<char>) -> Seq<ScaffoldFileV> {
    if t is Application {
        seq![
            ScaffoldFileV { path: "src/"@ + name + "/main.py"@, contents: spec_main_py() },
        ]
    } else {
        seq![
            ScaffoldFileV { path: "src/"@ + name + "/__init__.py"@, contents: spec_init_py() },
            ScaffoldFileV { path: "tests/test_version.py"@, contents: spec_test_py(name) },
        ]
    }
}

/// A project workspace: the root directory it owns, the loaded manifest and
/// the archetype that shaped it.
pub struct Project {
    pub root: String,
    pub project_type: ProjectType,
    pub project_file: Toml,
}

/// Mathematical value of a [`Project`] workspace.
#[verifier::ext_equal]
pub struct WorkspaceV {
    pub root: Seq<char>,
    pub project_type: ProjectType,
    pub project_file: TomlV,
}

impl View for Project {
    type V = WorkspaceV;

    open spec fn view(&self) -> WorkspaceV {
        WorkspaceV {
            root: self.root@,
            project_type: self.project_type,
            project_file: self.project_file@,
        }
    }
}

/// The manifest after adding specifier `d`: the list the group selects gets
/// `spec_add_list` applied; an absent list or group is created.
pub open spec fn spec_add_dep(t: TomlV, d: DependencySpecifierV) -> (TomlV, Option<Seq<char>>) {
    let e = spec_format_dep(d);
    let k = normalize_key(d.name);
    match d.group {
        None => {
            let l = match t.project.dependencies {
                Some(l) => l,
                None => Seq::empty(),
            };
            (
                TomlV {
                    project: crate::manifest::ProjectV {
                        dependencies: Some(spec_add_list(l, e, k)),
                        ..t.project
                    },
                    ..t
                },
                spec_prev(l, k),
            )
        },
        Some(g) => {
            let gs = match t.project.optional_dependencies {
                Some(gs) => gs,
                None => Seq::empty(),
            };
            match find_group(gs, g, 0) {
                Some(gi) => (
                    TomlV {
                        project: crate::manifest::ProjectV {
                            optional_dependencies: Some(
                                gs.update(
                                    gi,
                                    GroupV {
                                        name: gs[gi].name,
                                        deps: spec_add_list(gs[gi].deps, e, k),
                                    },
                                ),
                            ),
                            ..t.project
                        },
                        ..t
                    },
                    spec_prev(gs[gi].deps, k),
                ),
                None => (
                    TomlV {
                        project: crate::manifest::ProjectV {
                            optional_dependencies: Some(
                                gs.push(GroupV { name: g, deps: seq![e] }),
                            ),
                            ..t.project
                        },
                        ..t
                    },
                    None,
                ),
            }
        },
    }
}

/// The manifest after removing the dependency `d` names, or
/// `DependencyNotFoundError`. Removing the last entry of an optional group
/// prunes the group itself.
pub open spec fn spec_remove_dep(t: TomlV, d: DependencySpecifierV) -> Result<TomlV, HuakError> {
    let k = normalize_key(d.name);
    match d.group {
        None => {
            match t.project.dependencies {
                None => Err(HuakError::DependencyNotFoundError),
                Some(l) => match spec_remove_list(l, k) {
                    None => Err(HuakError::DependencyNotFoundError),
                    Some(l2) => Ok(
                        TomlV {
                            project: crate::manifest::ProjectV {
                                dependencies: Some(l2),
                                ..t.project
                            },
                            ..t
                        },
                    ),
                },
            }
        },
        Some(g) => {
            match t.project.optional_dependencies {
                None => Err(HuakError::DependencyNotFoundError),
                Some(gs) => match find_group(gs, g, 0) {
                    None => Err(HuakError::DependencyNotFoundError),
                    Some(gi) => match spec_remove_list(gs[gi].deps, k) {
                        None => Err(HuakError::DependencyNotFoundError),
                        Some(l2) => Ok(
                            TomlV {
                                project: crate::manifest::ProjectV {
                                    optional_dependencies: Some(
                                        if l2.len() == 0 {
                                            gs.remove(gi)
                                        } else {
                                            gs.update(
                                                gi,
                                                GroupV { name: gs[gi].name, deps: l2 },
                                            )
                                        },
                                    ),
                                    ..t.project
                                },
                                ..t
                            },
                        ),
                    },
                },
            }
        },
    }
}

impl Project {
    /// An in-memory workspace over `root` with a default manifest named
    /// after the root's directory name. Touches nothing on disk.
    pub fn new(root: String, project_type: ProjectType) -> (r: Project)
        ensures
            r@.root == root@,
            r@.project_type == project_type,
            r@.project_file.project == crate::manifest::spec_default_project(
                project_type,
                dir_name(root@),
            ),
            r@.project_file.build_system == crate::manifest::spec_default_build_system(),
    {
        let name = dir_name_of(root.as_str());
        let project_file = Toml::default_for(project_type, name.as_str());
        Project { root, project_type, project_file }
    }

    /// A workspace over `root` holding an already-loaded manifest.
    pub fn from_manifest(root: String, project_type: ProjectType, project_file: Toml) -> (r:
        Project)
        ensures
            r@.root == root@,
            r@.project_type == project_type,
            r@.project_file == project_file@,
    {
        Project { root, project_type, project_file }
    }

    /// The workspace root directory.
    pub fn root(&self) -> (r: &String)
        ensures
            r@ == self@.root,
    {
        &self.root
    }

    /// The scaffolding plan for this workspace: the source package's entry
    /// file, and for a library also the version test.
    pub fn bootstrap(&self) -> (r: Vec<ScaffoldFile>)
        ensures
            r.deep_view() == spec_bootstrap(self.project_type, self@.project_file.project.name),
    {
        let name = &self.project_file.project.name;
        let mut files: Vec<ScaffoldFile> = Vec::new();
        match self.project_type {
            ProjectType::Application => {
                let mut path = String::from_str("src/");
                path.append(name.as_str());
                path.append("/main.py");
                files.push(
                    ScaffoldFile {
                        path,
                        contents: String::from_str(
                            "def main():\n    print(\"Hello, World!\")\n\n\nif __name__ == \"__main__\":\n    main()\n",
                        ),
                    },
                );
                proof {
                    assert(files.deep_view() =~= spec_bootstrap(
                        self.project_type,
                        self@.project_file.project.name,
                    ));
                }
            },
            ProjectType::Library => {
                let mut path = String::from_str("src/");
                path.append(name.as_str());
                path.append("/__init__.py");
                files.push(
                    ScaffoldFile {
                        path,
                        contents: String::from_str("__version__ = \"0.0.1\"\n"),
                    },
                );
                let mut test_contents = String::from_str("from ");
                test_contents.append(name.as_str());
                test_contents.append(" import __version__\n\n\ndef test_version():\n    __version__\n");
                files.push(
                    ScaffoldFile {
                        path: String::from_str("tests/test_version.py"),
                        contents: test_contents,
                    },
                );
                proof {
                    assert(files.deep_view() =~= spec_bootstrap(
                        self.project_type,
                        self@.project_file.project.name,
                    ));
                }
            },
        }
        files
    }

    /// Adds a dependency: the formatted requirement goes to the default list
    /// or to the specifier's group (created if absent); an entry with the
    /// same normalized name and group is replaced in place and handed back.
    pub fn add_dependency(&mut self, dep: &DependencySpecifier) -> (r: Option<String>)
        ensures
            final(self)@.root == old(self)@.root,
            final(self)@.project_type == old(self)@.project_type,
            final(self)@.project_file == spec_add_dep(old(self)@.project_file, dep@).0,
            r.deep_view() == spec_add_dep(old(self)@.project_file, dep@).1,
    {
        let entry = dep.format();
        let key = dep.key();
        match &dep.group {
            None => {
                let cur = self.project_file.project.dependencies.take();
                let mut l = match cur {
                    Some(l) => l,
                    None => {
                        let e: Vec<String> = Vec::new();
                        proof {
                            assert(e.deep_view() =~= Seq::<Seq<char>>::empty());
                        }
                        e
                    },
                };
                let prev = list_add(&mut l, entry, &key);
                self.project_file.project.dependencies = Some(l);
                prev
            },
            Some(g) => {
                let cur = self.project_file.project.optional_dependencies.take();
                let mut gs = match cur {
                    Some(gs) => gs,
                    None => {
                        let e: Vec<Group> = Vec::new();
                        proof {
                            assert(e.deep_view() =~= Seq::<GroupV>::empty());
                        }
                        e
                    },
                };
                let ghost gs_dv = gs.deep_view();
                let r = match find_group_idx(&gs, g.as_str()) {
                    Some(gi) => {
                        proof {
                            lemma_find_group_bounds(gs_dv, g@, 0);
                        }
                        let ghost gs0 = gs@;
                        let grp = gs.remove(gi);
                        let mut l2 = grp.deps;
                        let prev = list_add(&mut l2, entry, &key);
                        let g2 = Group { name: grp.name, deps: l2 };
                        let ghost g2v = g2@;
                        gs.insert(gi, g2);
                        proof {
                            lemma_remove_insert_update(gs0, gi as int, g2);
                            assert(gs@ == gs0.update(gi as int, g2));
                            assert(g2v == GroupV {
                                name: gs_dv[gi as int].name,
                                deps: spec_add_list(gs_dv[gi as int].deps, entry@, key@),
                            });
                            assert(gs.deep_view() =~= gs_dv.update(gi as int, g2v));
                        }
                        prev
                    },
                    None => {
                        let ghost ev = entry@;
                        let mut deps: Vec<String> = Vec::new();
                        deps.push(entry);
                        proof {
                            assert(deps.deep_view() =~= seq![ev]);
                        }
                        let g2 = Group { name: g.clone(), deps };
                        let ghost g2v = g2@;
                        gs.push(g2);
                        proof {
                            assert(g2v == (GroupV { name: g@, deps: seq![ev] }));
                            assert(gs.deep_view() =~= gs_dv.push(g2v));
                        }
                        None
                    },
                };
                self.project_file.project.optional_dependencies = Some(gs);
                r
            },
        }
    }

    /// Removes the dependency the specifier names from its group or from the
    /// default list; fails with `DependencyNotFoundError` when absent, and
    /// prunes an optional group that the removal emptied.
    pub fn remove_dependency(&mut self, dep: &DependencySpecifier) -> (r: Result<(), HuakError>)
        ensures
            final(self)@.root == old(self)@.root,
            final(self)@.project_type == old(self)@.project_type,
            match spec_remove_dep(old(self)@.project_file, dep@) {
                Ok(t2) => r is Ok && final(self)@.project_file == t2,
                Err(e) => (r matches Err(e2) && e2 == e) && final(self)@.project_file == old(
                    self,
                )@.project_file,
            },
    {
        let key = dep.key();
        match &dep.group {
            None => {
                let cur = self.project_file.project.dependencies.take();
                match cur {
                    None => {
                        self.project_file.project.dependencies = None;
                        Err(HuakError::DependencyNotFoundError)
                    },
                    Some(mut l) => {
                        let removed = list_remove(&mut l, &key);
                        self.project_file.project.dependencies = Some(l);
                        if removed {
                            Ok(())
                        } else {
                            Err(HuakError::DependencyNotFoundError)
                        }
                    },
                }
            },
            Some(g) => {
                let cur = self.project_file.project.optional_dependencies.take();
                match cur {
                    None => {
                        self.project_file.project.optional_dependencies = None;
                        Err(HuakError::DependencyNotFoundError)
                    },
                    Some(mut gs) => {
                        let ghost gs_dv = gs.deep_view();
                        match find_group_idx(&gs, g.as_str()) {
                            None => {
                                self.project_file.project.optional_dependencies = Some(gs);
                                Err(HuakError::DependencyNotFoundError)
                            },
                            Some(gi) => {
                                proof {
                                    lemma_find_group_bounds(gs_dv, g@, 0);
                                }
                                let ghost gs0 = gs@;
                                let grp = gs.remove(gi);
                                let mut l2 = grp.deps;
                                let removed = list_remove(&mut l2, &key);
                                if !removed {
                                    let g2 = Group { name: grp.name, deps: l2 };
                                    let ghost g2v = g2@;
                                    gs.insert(gi, g2);
                                    proof {
                                        lemma_remove_insert_update(gs0, gi as int, g2);
                                        assert(gs@ == gs0.update(gi as int, g2));
                                        assert(g2v == gs_dv[gi as int]);
                                        assert(gs.deep_view() =~= gs_dv);
                                    }
                                    self.project_file.project.optional_dependencies = Some(gs);
                                    Err(HuakError::DependencyNotFoundError)
                                } else if l2.len() == 0 {
                                    proof {
                                        assert(gs.deep_view() =~= gs_dv.remove(gi as int));
                                    }
                                    self.project_file.project.optional_dependencies = Some(gs);
                                    Ok(())
                                } else {
                                    let g2 = Group { name: grp.name, deps: l2 };
                                    let ghost g2v = g2@;
                                    gs.insert(gi, g2);
                                    proof {
                                        lemma_remove_insert_update(gs0, gi as int, g2);
                                        assert(gs@ == gs0.update(gi as int, g2));
                                        assert(g2v == GroupV {
                                            name: gs_dv[gi as int].name,
                                            deps: spec_remove_list(gs_dv[gi as int].deps, key@)->0,
                                        });
                                        assert(gs.deep_view() =~= gs_dv.update(gi as int, g2v));
                                    }
                                    self.project_file.project.optional_dependencies = Some(gs);
                                    Ok(())
                                }
                            },
                        }
                    },
                }
            },
        }
    }
}

} // verus!
