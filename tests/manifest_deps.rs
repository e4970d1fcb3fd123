use cargo_lpatch::manifest::{
    parse_dependency_definition, CargoToml, ClassifyError, DependencyDefinition, DependencyType,
};

fn detailed(
    version: Option<&str>,
    git: Option<&str>,
    path: Option<&str>,
    branch: Option<&str>,
) -> DependencyDefinition {
    DependencyDefinition::Detailed {
        version: version.map(|s| s.to_string()),
        git: git.map(|s| s.to_string()),
        branch: branch.map(|s| s.to_string()),
        tag: None,
        rev: None,
        path: path.map(|s| s.to_string()),
    }
}

fn kind_of(def: &DependencyDefinition) -> &'static str {
    match parse_dependency_definition("dep", def) {
        Ok(info) => match info.dep_type {
            DependencyType::Version { .. } => "version",
            DependencyType::Git { .. } => "git",
            DependencyType::Path { .. } => "path",
        },
        Err(_) => "error",
    }
}

#[test]
fn git_wins_over_path_and_version() {
    let g = Some("https://example.com/a.git");
    let p = Some("../a");
    let v = Some("1.0");
    assert_eq!(kind_of(&detailed(v, g, p, None)), "git");
    assert_eq!(kind_of(&detailed(None, g, p, None)), "git");
    assert_eq!(kind_of(&detailed(v, g, None, None)), "git");
    assert_eq!(kind_of(&detailed(None, g, None, None)), "git");
    assert_eq!(kind_of(&detailed(v, None, p, None)), "path");
    assert_eq!(kind_of(&detailed(None, None, p, None)), "path");
    assert_eq!(kind_of(&detailed(v, None, None, None)), "version");
    assert_eq!(kind_of(&detailed(None, None, None, None)), "error");
}

#[test]
fn git_declaration_carries_its_fields() {
    let def = detailed(Some("1"), Some("https://example.com/acme/widget.git"), None, Some("dev"));
    match parse_dependency_definition("widget", &def) {
        Ok(info) => {
            assert_eq!(info.name, "widget");
            match info.dep_type {
                DependencyType::Git { git, branch, tag, rev } => {
                    assert_eq!(git, "https://example.com/acme/widget.git");
                    assert_eq!(branch.as_deref(), Some("dev"));
                    assert!(tag.is_none());
                    assert!(rev.is_none());
                }
                _ => panic!("expected a git dependency"),
            }
        }
        Err(_) => panic!("expected a classification"),
    }
}

#[test]
fn unclassifiable_declaration_names_the_dependency() {
    match parse_dependency_definition("broken", &detailed(None, None, None, Some("main"))) {
        Err(ClassifyError::InvalidDefinition { name }) => assert_eq!(name, "broken"),
        Ok(_) => panic!("expected an error"),
    }
}

#[test]
fn simple_string_is_a_version() {
    match parse_dependency_definition("serde", &DependencyDefinition::Simple("1.0".to_string())) {
        Ok(info) => match info.dep_type {
            DependencyType::Version { version } => assert_eq!(version, "1.0"),
            _ => panic!("expected a version dependency"),
        },
        Err(_) => panic!("expected a classification"),
    }
}

fn sample_manifest() -> CargoToml {
    CargoToml {
        dependencies: Some(vec![
            ("serde".to_string(), DependencyDefinition::Simple("1".to_string())),
            ("bad".to_string(), detailed(None, None, None, None)),
            ("local".to_string(), detailed(None, None, Some("../local"), None)),
        ]),
        dev_dependencies: Some(vec![(
            "widget".to_string(),
            detailed(None, Some("https://example.com/w.git"), None, None),
        )]),
        build_dependencies: Some(vec![(
            "serde".to_string(),
            detailed(None, None, Some("../serde"), None),
        )]),
    }
}

#[test]
fn all_dependencies_in_table_order_without_invalid_ones() {
    let names: Vec<String> =
        sample_manifest().get_all_dependencies().into_iter().map(|d| d.name).collect();
    assert_eq!(names, vec!["serde", "local", "widget", "serde"]);
}

#[test]
fn find_dependency_takes_the_first_of_the_name() {
    let m = sample_manifest();
    match m.find_dependency("serde") {
        Some(d) => assert!(matches!(d.dep_type, DependencyType::Version { .. })),
        None => panic!("expected serde"),
    }
    assert!(m.find_dependency("bad").is_none());
    assert!(m.find_dependency("absent").is_none());
}

#[test]
fn dependencies_by_kind() {
    let m = sample_manifest();
    let git: Vec<String> = m.get_git_dependencies().into_iter().map(|d| d.name).collect();
    let ver: Vec<String> = m.get_version_dependencies().into_iter().map(|d| d.name).collect();
    let path: Vec<String> = m.get_path_dependencies().into_iter().map(|d| d.name).collect();
    assert_eq!(git, vec!["widget"]);
    assert_eq!(ver, vec!["serde"]);
    assert_eq!(path, vec!["local", "serde"]);
}

#[test]
fn manifest_without_tables_has_no_dependencies() {
    let m = CargoToml { dependencies: None, dev_dependencies: None, build_dependencies: None };
    assert!(m.get_all_dependencies().is_empty());
}

#[test]
fn repeated_names_in_one_table_are_detected() {
    let mut m = sample_manifest();
    assert!(m.well_formed());
    m.dev_dependencies
        .as_mut()
        .unwrap()
        .push(("widget".to_string(), DependencyDefinition::Simple("1".to_string())));
    assert!(!m.well_formed());
}
