use huak::manifest::Toml;

#[test]
fn serialize() {
    let string = r#"[project]
name = "Test"
version = "0.1.0"
description = ""
dependencies = ["click==8.1.3", "black==22.8.0"]

[project.optional-dependencies]
test = ["pytest>=6", "mock"]

[[project.authors]]
name = "Chris Pryer"
email = "cnpryer@gmail.com"

[build-system]
requires = ["huak-core>=1.0.0"]
build-backend = "huak.core.build.api"
"#;

    // The canonical layout does not preserve the ordering of the tables.
    let expected_output = r#"[project]
name = "Test"
version = "0.1.0"
description = ""
dependencies = [
    "click==8.1.3",
    "black==22.8.0",
]

[[project.authors]]
name = "Chris Pryer"
email = "cnpryer@gmail.com"

[project.optional-dependencies]
test = [
    "pytest>=6",
    "mock",
]

[build-system]
requires = ["huak-core>=1.0.0"]
build-backend = "huak.core.build.api"
"#;

    let toml = Toml::from(string).unwrap();
    let res = toml.to_string();
    assert_eq!(expected_output, &res);
}

#[test]
fn deserialize() {
    let string = r#"[project]
name = "Test"
version = "0.1.0"
description = ""
dependencies = ["click==8.1.3", "black==22.8.0"]

[project.optional-dependencies]
test = ["pytest>=6", "mock"]

[[project.authors]]
name = "Chris Pryer"
email = "cnpryer@gmail.com"

[build-system]
requires = ["huak-core>=1.0.0"]
build-backend = "huak.core.build.api"
"#;
    let toml = Toml::from(string).unwrap();

    assert_eq!(toml.project.name, "Test");
    assert_eq!(
        toml.project.authors.as_ref().unwrap()[0]
            .name
            .as_ref()
            .unwrap()
            .clone(),
        "Chris Pryer"
    );

    assert_eq!(
        toml.build_system.requires,
        vec![String::from("huak-core>=1.0.0")]
    );
    assert_eq!(
        toml.build_system.build_backend,
        Some(String::from("huak.core.build.api"))
    );

    assert_eq!(toml.project.version, Some(String::from("0.1.0")));
    assert_eq!(toml.project.description, Some(String::from("")));
    assert_eq!(
        toml.project.dependencies,
        Some(vec![
            String::from("click==8.1.3"),
            String::from("black==22.8.0")
        ])
    );
}

#[test]
fn deserialize_array_of_authors() {
    let string = r#"[project]
name = "Test"
version = "0.1.0"
description = ""
dependencies = ["click==8.1.3", "black==22.8.0"]

[[project.authors]]
name = "Chris Pryer"
email = "cnpryer@gmail.com"

[[project.authors]]
name = "Chris Pryer"
email = "test@email.com"

[build-system]
requires = ["huak-core>=1.0.0"]
build-backend = "huak.core.build.api"
"#;

    let toml = Toml::from(string).unwrap();

    assert_eq!(
        "Chris Pryer",
        toml.project
            .authors
            .as_ref()
            .unwrap()
            .get(1)
            .unwrap()
            .name
            .as_ref()
            .unwrap()
    );
    assert_eq!(
        "test@email.com",
        toml.project
            .authors
            .as_ref()
            .unwrap()
            .get(1)
            .unwrap()
            .email
            .as_ref()
            .unwrap()
    );
}

#[test]
fn round_trip_canonical() {
    let text = r#"[project]
name = "demo"
version = "0.0.1"
description = "a demo"
dependencies = [
    "click==8.1.3",
]

[[project.authors]]
name = "Someone"
email = "someone@example.com"

[project.optional-dependencies]
test = [
    "pytest>=6",
]

[project.scripts]
demo = "demo.main:main"

[build-system]
requires = ["huak-core>=1.0.0"]
build-backend = "huak.core.build.api"
"#;
    let toml = Toml::from(text).unwrap();
    let out = toml.to_string();
    assert_eq!(text, &out);
    let again = Toml::from(&out).unwrap();
    assert_eq!(again.project.name, toml.project.name);
    assert_eq!(again.project.version, toml.project.version);
    assert_eq!(again.project.description, toml.project.description);
    assert_eq!(again.project.dependencies, toml.project.dependencies);
    assert_eq!(again.to_string(), out);
}

#[test]
fn parse_dependency_order_and_serialized_lines() {
    let text = r#"[project]
name = "t"
dependencies = ["click==8.1.3", "black==22.8.0"]

[build-system]
requires = []
"#;
    let toml = Toml::from(text).unwrap();
    assert_eq!(
        toml.project.dependencies,
        Some(vec![
            String::from("click==8.1.3"),
            String::from("black==22.8.0")
        ])
    );
    let out = toml.to_string();
    assert!(out.contains("dependencies = [\n    \"click==8.1.3\",\n    \"black==22.8.0\",\n]\n"));
}

#[test]
fn format_error_on_malformed_text() {
    let r = Toml::from("not a manifest ][");
    assert!(matches!(r, Err(huak::errors::HuakError::ManifestFormatError)));
    let r2 = Toml::from("[project]\nname = \"x\"\ndependencies = [\n\"a\"\n");
    assert!(matches!(
        r2,
        Err(huak::errors::HuakError::ManifestFormatError)
    ));
}

#[test]
fn schema_error_on_missing_fields() {
    // well-formed, but no project name
    let r = Toml::from("[project]\nversion = \"0.1.0\"\n\n[build-system]\nrequires = []\n");
    assert!(matches!(r, Err(huak::errors::HuakError::ManifestSchemaError)));
    // no build-system table at all
    let r2 = Toml::from("[project]\nname = \"x\"\n");
    assert!(matches!(
        r2,
        Err(huak::errors::HuakError::ManifestSchemaError)
    ));
    // a known key with the wrong value shape
    let r3 = Toml::from("[project]\nname = 3\n\n[build-system]\nrequires = []\n");
    assert!(matches!(
        r3,
        Err(huak::errors::HuakError::ManifestSchemaError)
    ));
}

#[test]
fn unknown_fields_are_ignored() {
    let text = r#"[project]
name = "t"
readme = "README.md"
unknown-table-key = 42

[tool.something]
whatever = "yes"

[build-system]
requires = ["huak-core>=1.0.0"]
"#;
    let toml = Toml::from(text).unwrap();
    assert_eq!(toml.project.name, "t");
    assert_eq!(toml.build_system.build_backend, None);
}

#[test]
fn default_manifest_values() {
    let toml = Toml::default();
    assert_eq!(toml.project.version, Some(String::from("0.0.1")));
    assert_eq!(toml.project.description, Some(String::from("")));
    assert!(toml.project.scripts.is_none());
    assert_eq!(
        toml.build_system.requires,
        vec![String::from("huak-core>=1.0.0")]
    );
    assert_eq!(
        toml.build_system.build_backend,
        Some(String::from("huak.core.build.api"))
    );
}

#[test]
fn tolerates_comments_blank_lines_and_crlf() {
    let text = "# top comment\r\n[project]\r\nname = \"t\"  \r\n\r\n# another\n[build-system]\nrequires = [\"a\"]\n";
    let toml = Toml::from(text).unwrap();
    assert_eq!(toml.project.name, "t");
    assert_eq!(toml.build_system.requires, vec![String::from("a")]);
}

#[test]
fn multiline_array_in_input() {
    let text = "[project]\nname = \"t\"\ndependencies = [\n    \"a==1\",\n    \"b==2\"\n]\n\n[build-system]\nrequires = []\n";
    let toml = Toml::from(text).unwrap();
    assert_eq!(
        toml.project.dependencies,
        Some(vec![String::from("a==1"), String::from("b==2")])
    );
}

#[test]
fn empty_dependency_array_round_trips() {
    let text = "[project]\nname = \"t\"\ndependencies = []\n\n[build-system]\nrequires = []\n";
    let toml = Toml::from(text).unwrap();
    assert_eq!(toml.project.dependencies, Some(vec![]));
    let out = toml.to_string();
    assert!(out.contains("dependencies = []\n"));
    assert!(out.contains("requires = []\n"));
}

#[test]
fn quoted_and_escaped_values_round_trip() {
    let mut toml = Toml::default();
    toml.project.name = String::from("demo");
    toml.project.description = Some(String::from("says \"hi\", uses a \\ and\na second line"));
    toml.project.dependencies = Some(vec![String::from("odd\"name==1")]);
    let out = toml.to_string();
    let again = Toml::from(&out).unwrap();
    assert_eq!(
        again.project.description,
        Some(String::from("says \"hi\", uses a \\ and\na second line"))
    );
    assert_eq!(
        again.project.dependencies,
        Some(vec![String::from("odd\"name==1")])
    );
    assert_eq!(again.to_string(), out);
}

#[test]
fn trailing_comment_after_value_is_ignored() {
    let text = "[project]\nname = \"x\" # the project name\n\n[build-system]\nrequires = []\n";
    let toml = Toml::from(text).unwrap();
    assert_eq!(toml.project.name, "x");
}

#[test]
fn unknown_escape_is_rejected() {
    let text = "[project]\nname = \"a\\q\"\n\n[build-system]\nrequires = []\n";
    assert!(matches!(
        Toml::from(text),
        Err(huak::errors::HuakError::ManifestSchemaError)
    ));
}
