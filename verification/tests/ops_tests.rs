use huak::cli::{Cli, Commands, Intent};
use huak::dependency::DependencySpecifier;
use huak::errors::HuakError;
use huak::manifest::{ProjectType, Toml};
use huak::ops::{
    add_project_dependency, create_project, manifest_to_persist, remove_project_dependency,
    resolve_install_targets,
};
use huak::project::Project;

fn expected_main_file() -> &'static str {
    "def main():\n    print(\"Hello, World!\")\n\n\nif __name__ == \"__main__\":\n    main()\n"
}

#[test]
fn creates_project() {
    // Library is the default archetype.
    let mut project = Project::new(String::from("workdir/project"), ProjectType::default());
    let plan = create_project(&mut project);
    // The manifest the plan writes exists and parses back.
    let toml = Toml::from(&plan.manifest_text).unwrap();
    assert_eq!(toml.project.name, "project");
    assert!(plan
        .files
        .iter()
        .any(|f| f.path == "src/project/__init__.py"));
}

#[test]
fn create_app_project() {
    let mut project = Project::new(String::from("workdir/project"), ProjectType::Application);
    let plan = create_project(&mut project);
    let toml = Toml::from(&plan.manifest_text).unwrap();

    assert!(toml.project.scripts.is_some());
    let scripts = toml.project.scripts.unwrap();
    let entry = scripts
        .iter()
        .find(|s| s.name == toml.project.name)
        .map(|s| s.entry.clone())
        .unwrap();
    assert_eq!(entry, format!("{}.main:main", toml.project.name));
    let main_file = plan
        .files
        .iter()
        .find(|f| f.path == "src/project/main.py")
        .map(|f| f.contents.clone())
        .unwrap();
    assert_eq!(main_file, expected_main_file());
}

#[test]
fn create_lib_project() {
    let mut project = Project::new(String::from("workdir/project"), ProjectType::Library);
    let plan = create_project(&mut project);
    let toml = Toml::from(&plan.manifest_text).unwrap();

    let test_file = plan
        .files
        .iter()
        .find(|f| f.path == "tests/test_version.py")
        .map(|f| f.contents.clone())
        .unwrap();
    let expected_test_file = format!(
        r#"from {} import __version__


def test_version():
    __version__
"#,
        project.project_file.project.name
    );
    let init_file = plan
        .files
        .iter()
        .find(|f| f.path == "src/project/__init__.py")
        .map(|f| f.contents.clone())
        .unwrap();
    let expected_init_file = "__version__ = \"0.0.1\"\n";

    assert!(toml.project.scripts.is_none());
    assert_eq!(test_file, expected_test_file);
    assert_eq!(init_file, expected_init_file);
}

#[test]
fn new_project_scripts_by_archetype() {
    // An application at `proj` maps `proj` to `proj.main:main`.
    let mut app = Project::new(String::from("proj"), ProjectType::Application);
    let plan = create_project(&mut app);
    let toml = Toml::from(&plan.manifest_text).unwrap();
    let scripts = toml.project.scripts.unwrap();
    assert_eq!(scripts.len(), 1);
    assert_eq!(scripts[0].name, "proj");
    assert_eq!(scripts[0].entry, "proj.main:main");

    // A library has no scripts table.
    let mut lib = Project::new(String::from("proj"), ProjectType::Library);
    let lib_plan = create_project(&mut lib);
    let lib_toml = Toml::from(&lib_plan.manifest_text).unwrap();
    assert!(lib_toml.project.scripts.is_none());
}

#[test]
fn specifier_parse_examples() {
    let s = DependencySpecifier::parse("requests>=2.0").unwrap();
    assert_eq!(s.name, "requests");
    assert_eq!(s.constraint, Some(String::from(">=2.0")));

    let t = DependencySpecifier::parse("Flask_Login").unwrap();
    assert_eq!(t.name, "Flask_Login");
    assert_eq!(t.constraint, None);
    let key: String = t.key().into_iter().collect();
    assert_eq!(key, "flask-login");
}

#[test]
fn specifier_empty_name_is_invalid() {
    assert!(matches!(
        DependencySpecifier::parse("==1.0"),
        Err(HuakError::InvalidSpecifierError)
    ));
    assert!(matches!(
        DependencySpecifier::parse(""),
        Err(HuakError::InvalidSpecifierError)
    ));
}

#[test]
fn add_is_idempotent_and_replaces_in_place() {
    let mut project = Project::new(String::from("demo"), ProjectType::Library);
    add_project_dependency(&mut project, "click==8.1.3", None).unwrap();
    add_project_dependency(&mut project, "black==22.8.0", None).unwrap();
    assert_eq!(
        project.project_file.project.dependencies,
        Some(vec![
            String::from("click==8.1.3"),
            String::from("black==22.8.0")
        ])
    );
    // Same normalized name again: replaced in place, not duplicated.
    let changed = add_project_dependency(&mut project, "Click==9.0", None).unwrap();
    assert!(changed);
    assert_eq!(
        project.project_file.project.dependencies,
        Some(vec![String::from("Click==9.0"), String::from("black==22.8.0")])
    );
    // An identical entry needs no install.
    let changed_again = add_project_dependency(&mut project, "Click==9.0", None).unwrap();
    assert!(!changed_again);
    assert_eq!(
        project.project_file.project.dependencies.as_ref().unwrap().len(),
        2
    );
}

#[test]
fn remove_then_remove_again_fails() {
    let mut project = Project::new(String::from("demo"), ProjectType::Library);
    add_project_dependency(&mut project, "click==8.1.3", None).unwrap();
    remove_project_dependency(&mut project, "click", &None).unwrap();
    let second = remove_project_dependency(&mut project, "click", &None);
    assert!(matches!(second, Err(HuakError::DependencyNotFoundError)));
}

#[test]
fn group_pruned_when_last_dependency_removed() {
    let mut project = Project::new(String::from("demo"), ProjectType::Library);
    let group = Some(String::from("test"));
    add_project_dependency(&mut project, "pytest>=6", group.clone()).unwrap();
    let text_before = project.project_file.to_string();
    assert!(text_before.contains("[project.optional-dependencies]"));
    assert!(text_before.contains("test = ["));

    remove_project_dependency(&mut project, "pytest", &group).unwrap();
    let text_after = project.project_file.to_string();
    assert!(!text_after.contains("test = ["));
}

#[test]
fn add_failure_keeps_manifest_on_disk() {
    let mut project = Project::new(String::from("demo"), ProjectType::Library);
    let disk = project.project_file.to_string();
    // The in-memory model is mutated before the installer runs...
    add_project_dependency(&mut project, "click==8.1.3", None).unwrap();
    // ...but when the installer fails, nothing is handed out to persist,
    // so the text on disk stays what it was.
    assert!(manifest_to_persist(false, &project).is_none());
    // Only on success is the updated text produced.
    let persisted = manifest_to_persist(true, &project).unwrap();
    assert!(persisted.contains("click==8.1.3"));
    assert_ne!(persisted, disk);
}

#[test]
fn install_targets_flatten_and_dedup() {
    let text = r#"[project]
name = "demo"
dependencies = ["click==8.1.3", "requests>=2.0"]

[project.optional-dependencies]
test = ["pytest>=6", "Click==9"]
dev = ["black==22.8.0", "pytest>=6"]

[build-system]
requires = ["huak-core>=1.0.0"]
"#;
    let toml = Toml::from(text).unwrap();
    // No groups requested: default list plus every group, first occurrence
    // of a normalized name wins.
    let all = resolve_install_targets(&toml, &None);
    assert_eq!(
        all,
        vec![
            String::from("click==8.1.3"),
            String::from("requests>=2.0"),
            String::from("pytest>=6"),
            String::from("black==22.8.0"),
        ]
    );
    // Named groups only, in request order.
    let some = resolve_install_targets(&toml, &Some(vec![String::from("dev")]));
    assert_eq!(
        some,
        vec![String::from("black==22.8.0"), String::from("pytest>=6")]
    );
    let missing = resolve_install_targets(&toml, &Some(vec![String::from("absent")]));
    assert!(missing.is_empty());
}

#[test]
fn cli_run_resolves_archetype_and_vcs() {
    let cli = Cli {
        command: Commands::New {
            app: true,
            lib: false,
            path: String::from("proj"),
            no_vcs: true,
        },
    };
    match cli.run() {
        Intent::New {
            path,
            project_type,
            vcs,
        } => {
            assert_eq!(path, "proj");
            assert_eq!(project_type, ProjectType::Application);
            assert!(!vcs);
        }
        _ => panic!("wrong intent"),
    }
    let init = Cli {
        command: Commands::Init {
            app: false,
            lib: false,
        },
    };
    assert!(matches!(
        init.run(),
        Intent::Init {
            project_type: ProjectType::Library
        }
    ));
}

#[test]
fn error_messages_are_single_lines() {
    let errors = vec![
        HuakError::ManifestFormatError,
        HuakError::ManifestSchemaError,
        HuakError::ProjectNotFoundError,
        HuakError::DependencyNotFoundError,
        HuakError::InvalidSpecifierError,
        HuakError::IOError(String::from("cause")),
        HuakError::InstallerError(String::from("cause")),
        HuakError::VcsError(String::from("cause")),
    ];
    for e in errors {
        let msg = e.describe();
        assert!(!msg.is_empty());
        assert!(!msg.contains('\n'));
    }
}

#[test]
fn workspace_name_comes_from_directory_name() {
    let project = Project::new(String::from("some/nested/path/widgets"), ProjectType::Library);
    assert_eq!(project.project_file.project.name, "widgets");
    assert_eq!(project.root(), "some/nested/path/widgets");
}

#[test]
fn add_to_missing_manifest_list_creates_it() {
    let mut project = Project::new(String::from("demo"), ProjectType::Library);
    assert!(project.project_file.project.dependencies.is_none());
    add_project_dependency(&mut project, "click==8.1.3", None).unwrap();
    assert_eq!(
        project.project_file.project.dependencies,
        Some(vec![String::from("click==8.1.3")])
    );
}

#[test]
fn remove_from_empty_manifest_fails() {
    let mut project = Project::new(String::from("demo"), ProjectType::Library);
    assert!(matches!(
        remove_project_dependency(&mut project, "click", &None),
        Err(HuakError::DependencyNotFoundError)
    ));
    assert!(matches!(
        remove_project_dependency(&mut project, "x", &Some(String::from("test"))),
        Err(HuakError::DependencyNotFoundError)
    ));
}

#[test]
fn archetype_recovered_from_manifest() {
    let mut app = Project::new(String::from("proj"), ProjectType::Application);
    let app_toml = Toml::from(&create_project(&mut app).manifest_text).unwrap();
    assert_eq!(app_toml.archetype(), ProjectType::Application);

    let mut lib = Project::new(String::from("proj"), ProjectType::Library);
    let lib_toml = Toml::from(&create_project(&mut lib).manifest_text).unwrap();
    assert_eq!(lib_toml.archetype(), ProjectType::Library);
}

#[test]
fn error_message_text_is_fixed_per_kind() {
    assert_eq!(
        HuakError::ManifestFormatError.describe(),
        "failed to parse the manifest file"
    );
    assert_eq!(
        HuakError::DependencyNotFoundError.describe(),
        "the dependency is not listed in the manifest"
    );
    assert_ne!(
        HuakError::InstallerError(String::from("x")).describe(),
        HuakError::VcsError(String::from("x")).describe()
    );
}

#[test]
fn collaborator_diagnostics_reach_the_message() {
    let msg = HuakError::InstallerError(String::from("pip exited with status 1")).describe();
    assert_eq!(
        msg,
        "the package installer reported a failure: pip exited with status 1"
    );
    let flat = HuakError::IOError(String::from("line one\nline two")).describe();
    assert_eq!(flat, "a file could not be read or written: line one line two");
    assert!(!flat.contains('\n'));
}
