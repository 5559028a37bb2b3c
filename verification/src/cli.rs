//! The command surface: the parsed command line and its mapping to the
//! operation the program performs.
//!
//! Argument parsing itself happens outside the library; here the parsed
//! command is turned into an [`Intent`], resolving the archetype flags
//! (`--app` wins, library is the default) and the version-control flag.

use vstd::prelude::*;

use crate::manifest::ProjectType;

verus! {

/// The `config` subcommand's own commands.
#[derive(Clone, Debug)]
pub enum ConfigCommand {
    /// Generate shell completion.
    Completion,
}

/// The parsed command line: one subcommand.
#[derive(Clone, Debug)]
pub enum Commands {
    /// Activate the project's virtual environment.
    Activate,
    /// Add a dependency to the existing project.
    Add { dependency: String, group: Option<String> },
    /// Check for vulnerable dependencies and license compatibility.
    Audit,
    /// Build tarball and wheel for the project.
    Build,
    /// Interact with the configuration.
    Config { command: ConfigCommand },
    /// Remove tarball and wheel from the built project.
    Clean { pycache: bool },
    /// Generate documentation for the project.
    Doc { check: bool },
    /// Auto-fix fixable lint conflicts.
    Fix,
    /// Format the project's Python code.
    Fmt { check: bool },
    /// Initialize the existing project.
    Init { app: bool, lib: bool },
    /// Install the dependencies of an existing project.
    Install { groups: Option<Vec<String>> },
    /// Lint the project's Python code.
    Lint { fix: bool },
    /// Create a new project at the given path.
    New { app: bool, lib: bool, path: String, no_vcs: bool },
    /// Build and upload the current project to a registry.
    Publish,
    /// Remove a dependency from the project.
    Remove { dependency: String, group: Option<String> },
    /// Run a command within the project's environment context.
    Run { command: Vec<String> },
    /// Test the project's Python code.
    Test,
    /// Update dependencies added to the project.
    Update { dependency: String },
    /// Display the version of the project.
    Version,
}

/// The main command-line value.
#[derive(Clone, Debug)]
pub struct Cli {
    pub command: Commands,
}

/// The operation a command asks for, with its decisions resolved: the
/// archetype flags become a [`ProjectType`] and the `--no-vcs` flag becomes
/// whether version control is wanted.
#[derive(Clone, Debug)]
pub enum Intent {
    Activate,
    Add { dependency: String, group: Option<String> },
    Audit,
    Build,
    Config { command: ConfigCommand },
    Clean { pycache: bool },
    Doc { check: bool },
    Fix,
    Fmt { check: bool },
    Init { project_type: ProjectType },
    Install { groups: Option<Vec<String>> },
    Lint { fix: bool },
    New { path: String, project_type: ProjectType, vcs: bool },
    Publish,
    Remove { dependency: String, group: Option<String> },
    Run { command: Vec<String> },
    Test,
    Update { dependency: String },
    Version,
}

/// The intent of each command: a direct mapping, with `--app` selecting the
/// application archetype, library the default, and `vcs == !no_vcs`.
pub open spec fn spec_intent(c: Commands) -> Intent {
    match c {
        Commands::Activate => Intent::Activate,
        Commands::Add { dependency, group } => Intent::Add { dependency, group },
        Commands::Audit => Intent::Audit,
        Commands::Build => Intent::Build,
        Commands::Config { command } => Intent::Config { command },
        Commands::Clean { pycache } => Intent::Clean { pycache },
        Commands::Doc { check } => Intent::Doc { check },
        Commands::Fix => Intent::Fix,
        Commands::Fmt { check } => Intent::Fmt { check },
        Commands::Init { app, lib } => Intent::Init {
            project_type: if app {
                ProjectType::Application
            } else {
                ProjectType::Library
            },
        },
        Commands::Install { groups } => Intent::Install { groups },
        Commands::Lint { fix } => Intent::Lint { fix },
        Commands::New { app, lib, path, no_vcs } => Intent::New {
            path,
            project_type: if app {
                ProjectType::Application
            } else {
                ProjectType::Library
            },
            vcs: !no_vcs,
        },
        Commands::Publish => Intent::Publish,
        Commands::Remove { dependency, group } => Intent::Remove { dependency, group },
        Commands::Run { command } => Intent::Run { command },
        Commands::Test => Intent::Test,
        Commands::Update { dependency } => Intent::Update { dependency },
        Commands::Version => Intent::Version,
    }
}

impl Cli {
    /// Resolves the parsed command line to the operation to perform.
    pub fn run(self) -> (r: Intent)
        ensures
            r == spec_intent(self.command),
    {
        match self.command {
            Commands::Activate => Intent::Activate,
            Commands::Add { dependency, group } => Intent::Add { dependency, group },
            Commands::Audit => Intent::Audit,
            Commands::Build => Intent::Build,
            Commands::Config { command } => Intent::Config { command },
            Commands::Clean { pycache } => Intent::Clean { pycache },
            Commands::Doc { check } => Intent::Doc { check },
            Commands::Fix => Intent::Fix,
            Commands::Fmt { check } => Intent::Fmt { check },
            Commands::Init { app, lib: _ } => Intent::Init {
                project_type: if app {
                    ProjectType::Application
                } else {
                    ProjectType::Library
                },
            },
            Commands::Install { groups } => Intent::Install { groups },
            Commands::Lint { fix } => Intent::Lint { fix },
            Commands::New { app, lib: _, path, no_vcs } => Intent::New {
                path,
                project_type: if app {
                    ProjectType::Application
                } else {
                    ProjectType::Library
                },
                vcs: !no_vcs,
            },
            Commands::Publish => Intent::Publish,
            Commands::Remove { dependency, group } => Intent::Remove { dependency, group },
            Commands::Run { command } => Intent::Run { command },
            Commands::Test => Intent::Test,
            Commands::Update { dependency } => Intent::Update { dependency },
            Commands::Version => Intent::Version,
        }
    }
}

} // verus!
