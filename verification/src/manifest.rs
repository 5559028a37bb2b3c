//! The in-memory model of a project manifest: the `[project]` metadata table,
//! the `[build-system]` table, and the default ("builder") construction of
//! each for a chosen project archetype.

use vstd::prelude::*;
use vstd::string::*;

verus! {

/// Project archetype: determines scaffolding shape and whether the manifest
/// carries a `scripts` table. `Library` is the default.
#[derive(Clone, Copy, Debug, PartialEq, Eq, Structural)]
pub enum ProjectType {
    Library,
    Application,
}

impl Default for ProjectType {
    /// The archetype used when none is specified.
    fn default() -> (r: ProjectType)
        ensures
            r == ProjectType::Library,
    {
        ProjectType::Library
    }
}

/// One entry of the manifest's author list.
#[derive(Clone, Debug)]
pub struct Author {
    pub name: Option<String>,
    pub email: Option<String>,
}

/// Mathematical value of an [`Author`].
#[verifier::ext_equal]
pub struct AuthorV {
    pub name: Option<Seq<char>>,
    pub email: Option<Seq<char>>,
}

impl View for Author {
    type V = AuthorV;

    open spec fn view(&self) -> AuthorV {
        AuthorV { name: self.name.deep_view(), email: self.email.deep_view() }
    }
}

impl DeepView for Author {
    type V = AuthorV;

    open spec fn deep_view(&self) -> AuthorV {
        self.view()
    }
}

/// A named optional dependency group and its requirement strings, in
/// insertion order.
#[derive(Clone, Debug)]
pub struct Group {
    pub name: String,
    pub deps: Vec<String>,
}

/// Mathematical value of a [`Group`].
#[verifier::ext_equal]
pub struct GroupV {
    pub name: Seq<char>,
    pub deps: Seq<Seq<char>>,
}

impl View for Group {
    type V = GroupV;

    open spec fn view(&self) -> GroupV {
        GroupV { name: self.name@, deps: self.deps.deep_view() }
    }
}

impl DeepView for Group {
    type V = GroupV;

    open spec fn deep_view(&self) -> GroupV {
        self.view()
    }
}

/// One `scripts` entry: a script name and its entry-point string.
#[derive(Clone, Debug)]
pub struct Script {
    pub name: String,
    pub entry: String,
}

/// Mathematical value of a [`Script`].
#[verifier::ext_equal]
pub struct ScriptV {
    pub name: Seq<char>,
    pub entry: Seq<char>,
}

impl View for Script {
    type V = ScriptV;

    open spec fn view(&self) -> ScriptV {
        ScriptV { name: self.name@, entry: self.entry@ }
    }
}

impl DeepView for Script {
    type V = ScriptV;

    open spec fn deep_view(&self) -> ScriptV {
        self.view()
    }
}

/// The `[project]` table: project metadata.
#[derive(Clone, Debug)]
pub struct Project {
    pub name: String,
    pub version: Option<String>,
    pub description: Option<String>,
    pub dependencies: Option<Vec<String>>,
    pub authors: Option<Vec<Author>>,
    pub optional_dependencies: Option<Vec<Group>>,
    pub scripts: Option<Vec<Script>>,
}

/// Mathematical value of a [`Project`].
#[verifier::ext_equal]
pub struct ProjectV {
    pub name: Seq<char>,
    pub version: Option<Seq<char>>,
    pub description: Option<Seq<char>>,
    pub dependencies: Option<Seq<Seq<char>>>,
    pub authors: Option<Seq<AuthorV>>,
    pub optional_dependencies: Option<Seq<GroupV>>,
    pub scripts: Option<Seq<ScriptV>>,
}

impl View for Project {
    type V = ProjectV;

    open spec fn view(&self) -> ProjectV {
        ProjectV {
            name: self.name@,
            version: self.version.deep_view(),
            description: self.description.deep_view(),
            dependencies: self.dependencies.deep_view(),
            authors: self.authors.deep_view(),
            optional_dependencies: self.optional_dependencies.deep_view(),
            scripts: self.scripts.deep_view(),
        }
    }
}

/// The `[build-system]` table.
#[derive(Clone, Debug)]
pub struct BuildSystem {
    pub requires: Vec<String>,
    pub build_backend: Option<String>,
}

/// Mathematical value of a [`BuildSystem`].
#[verifier::ext_equal]
pub struct BuildSystemV {
    pub requires: Seq<Seq<char>>,
    pub build_backend: Option<Seq<char>>,
}

impl View for BuildSystem {
    type V = BuildSystemV;

    open spec fn view(&self) -> BuildSystemV {
        BuildSystemV {
            requires: self.requires.deep_view(),
            build_backend: self.build_backend.deep_view(),
        }
    }
}

/// A whole manifest: project metadata plus build-system declaration.
#[derive(Clone, Debug)]
pub struct Toml {
    pub project: Project,
    pub build_system: BuildSystem,
}

/// Mathematical value of a [`Toml`].
#[verifier::ext_equal]
pub struct TomlV {
    pub project: ProjectV,
    pub build_system: BuildSystemV,
}

impl View for Toml {
    type V = TomlV;

    open spec fn view(&self) -> TomlV {
        TomlV { project: self.project@, build_system: self.build_system@ }
    }
}

/// The manifest value that `default_project(t, name)` yields.
pub open spec fn spec_default_project(t: ProjectType, name: Seq<char>) -> ProjectV {
    ProjectV {
        name: name,
        version: Some("0.0.1"@),
        description: Some(""@),
        dependencies: None,
        authors: None,
        optional_dependencies: None,
        scripts: if t is Application {
            Some(seq![ScriptV { name: name, entry: name + ".main:main"@ }])
        } else {
            None
        },
    }
}

/// The build-system value that `default_build_system()` yields.
pub open spec fn spec_default_build_system() -> BuildSystemV {
    BuildSystemV {
        requires: seq!["huak-core>=1.0.0"@],
        build_backend: Some("huak.core.build.api"@),
    }
}

/// Default `[project]` metadata for a project named `name` with archetype
/// `t`: version `0.0.1`, empty description, no authors, no dependencies, and
/// a `scripts` entry `name = "name.main:main"` only for an application.
pub fn default_project(t: ProjectType, name: &str) -> (r: Project)
    ensures
        r@ == spec_default_project(t, name@),
{
    let scripts = match t {
        ProjectType::Application => {
            let entry = String::from_str(name).concat(".main:main");
            Some(vec![Script { name: name.to_owned(), entry }])
        },
        ProjectType::Library => None,
    };
    let r = Project {
        name: name.to_owned(),
        version: Some("0.0.1".to_owned()),
        description: Some("".to_owned()),
        dependencies: None,
        authors: None,
        optional_dependencies: None,
        scripts,
    };
    proof {
        match (r@.scripts, spec_default_project(t, name@).scripts) {
            (Some(a), Some(b)) => {
                assert(a =~= b);
            },
            _ => {},
        }
    }
    r
}

/// Default `[build-system]`: a fixed backend identifier and a requirement on
/// the backend package.
pub fn default_build_system() -> (r: BuildSystem)
    ensures
        r@ == spec_default_build_system(),
{
    let r = BuildSystem {
        requires: vec!["huak-core>=1.0.0".to_owned()],
        build_backend: Some("huak.core.build.api".to_owned()),
    };
    proof {
        assert(r@.requires =~= spec_default_build_system().requires);
    }
    r
}

impl Toml {
    /// The archetype the manifest exhibits: a manifest with a `scripts`
    /// table belongs to an application, one without to a library.
    pub fn archetype(&self) -> (r: ProjectType)
        ensures
            r == (if self@.project.scripts is Some {
                ProjectType::Application
            } else {
                ProjectType::Library
            }),
    {
        match &self.project.scripts {
            Some(_) => ProjectType::Application,
            None => ProjectType::Library,
        }
    }

    /// A whole default manifest for archetype `t` and project name `name`.
    pub fn default_for(t: ProjectType, name: &str) -> (r: Toml)
        ensures
            r@.project == spec_default_project(t, name@),
            r@.build_system == spec_default_build_system(),
    {
        Toml { project: default_project(t, name), build_system: default_build_system() }
    }
}

impl Default for Toml {
    /// The default manifest: a library manifest with an empty name.
    fn default() -> (r: Toml)
        ensures
            r@.project == spec_default_project(ProjectType::Library, ""@),
            r@.build_system == spec_default_build_system(),
    {
        Toml::default_for(ProjectType::Library, "")
    }
}

} // verus!
