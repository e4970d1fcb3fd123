use cargo_lpatch::config::CargoConfig;
use cargo_lpatch::manifest::{CargoToml, DependencyDefinition, DependencyInfo, DependencyType};
use cargo_lpatch::plan::{
    find_similar_crate, locate_crate, plan_crate, similar_index, CrateInfo, CrateSource,
    LocateError, Located, PlanError,
};
use cargo_lpatch::repository::clean_repository_url;
use cargo_lpatch::workspace::{
    DirProbe, LayoutError, ManifestState, PathKind, RepoTree, RootManifest, WorkspaceConfig,
};

fn pairs(v: &[(&str, &str)]) -> Vec<(String, String)> {
    v.iter().map(|(a, b)| (a.to_string(), b.to_string())).collect()
}

#[test]
fn substring_rule_comes_before_prefix_rule() {
    let inventory = pairs(&[("foo-core", "/r/foo-core"), ("foo-utils", "/r/foo-utils")]);
    assert_eq!(
        find_similar_crate("foo-core-x", &inventory),
        Some(("foo-core".to_string(), "/r/foo-core".to_string()))
    );
}

#[test]
fn similarity_ignores_case_and_prefers_equal_names() {
    let inventory = pairs(&[("Widget-Core", "/r/widget-core"), ("WIDGET", "/r/widget")]);
    assert_eq!(
        find_similar_crate("widget", &inventory),
        Some(("WIDGET".to_string(), "/r/widget".to_string()))
    );
    assert_eq!(
        find_similar_crate("CORE", &inventory),
        Some(("Widget-Core".to_string(), "/r/widget-core".to_string()))
    );
    assert_eq!(find_similar_crate("zzz", &inventory), None);
    assert_eq!(find_similar_crate("x", &Vec::new()), None);
}

#[test]
fn similar_index_on_lowered_names() {
    let names = vec!["alpha".to_string(), "beta-x".to_string(), "beta".to_string()];
    assert_eq!(similar_index("beta", &names), Some(2));
    assert_eq!(similar_index("bet", &names), Some(1));
    assert_eq!(similar_index("gamma", &names), None);
}

fn git_dep(name: &str, git: &str, branch: Option<&str>) -> DependencyInfo {
    DependencyInfo {
        name: name.to_string(),
        dep_type: DependencyType::Git {
            git: git.to_string(),
            branch: branch.map(|b| b.to_string()),
            tag: None,
            rev: None,
        },
    }
}

#[test]
fn plan_from_declarations() {
    match plan_crate("widget", Some(git_dep("widget", "https://example.com/acme/widget.git", None)))
    {
        Ok(CrateSource::Known(info)) => {
            assert_eq!(info.repository_url, "https://example.com/acme/widget.git");
            assert_eq!(info.original_git_url.as_deref(), Some("https://example.com/acme/widget.git"));
            assert!(info.is_git_ref);
        }
        _ => panic!("expected a known source"),
    }
    let version = DependencyInfo {
        name: "serde".to_string(),
        dep_type: DependencyType::Version { version: "1".to_string() },
    };
    match plan_crate("serde", Some(version)) {
        Ok(CrateSource::Registry { crate_name }) => assert_eq!(crate_name, "serde"),
        _ => panic!("expected a registry lookup"),
    }
    let path = DependencyInfo {
        name: "local".to_string(),
        dep_type: DependencyType::Path { path: "../local".to_string() },
    };
    match plan_crate("local", Some(path)) {
        Err(PlanError::PathDependency { name, path }) => {
            assert_eq!(name, "local");
            assert_eq!(path, "../local");
        }
        _ => panic!("expected a refusal"),
    }
}

#[test]
fn plan_without_declaration() {
    match plan_crate("git@github.com:tokio-rs/tokio.git", None) {
        Ok(CrateSource::Known(info)) => {
            assert_eq!(info.name, "tokio");
            assert_eq!(info.repository_url, "git@github.com:tokio-rs/tokio.git");
        }
        _ => panic!("expected a known source"),
    }
    match plan_crate("anyhow", None) {
        Ok(CrateSource::Registry { crate_name }) => assert_eq!(crate_name, "anyhow"),
        _ => panic!("expected a registry lookup"),
    }
    assert!(matches!(plan_crate("git@nohost", None), Err(PlanError::Repository(_))));
}

#[test]
fn patch_source_of_each_origin() {
    let git = CrateInfo {
        name: "w".to_string(),
        repository_url: "https://example.com/w.git".to_string(),
        is_git_ref: true,
        original_git_url: Some("https://example.com/w.git".to_string()),
    };
    assert_eq!(git.patch_source(), "https://example.com/w.git");
    let registry = CrateInfo {
        name: "serde".to_string(),
        repository_url: "https://github.com/serde-rs/serde.git".to_string(),
        is_git_ref: false,
        original_git_url: None,
    };
    assert_eq!(registry.patch_source(), "crates-io");
}

fn probe(path: &str, subdirs: &[&str], manifest: ManifestState) -> DirProbe {
    DirProbe {
        path: path.to_string(),
        kind: PathKind::Dir,
        subdirs: Ok(subdirs.iter().map(|s| s.to_string()).collect()),
        manifest,
    }
}

fn workspace(names: &[&str]) -> RepoTree {
    let mut probes = vec![
        probe("", &["crates"], ManifestState::NoPackage),
        probe("crates", names, ManifestState::Absent),
    ];
    for n in names {
        probes.push(probe(&format!("crates/{n}"), &[], ManifestState::Package(n.to_string())));
    }
    RepoTree {
        root: "/r".to_string(),
        manifest: RootManifest::Parsed {
            workspace: Some(WorkspaceConfig {
                members: Some(vec!["crates/*".to_string()]),
                exclude: None,
            }),
        },
        probes,
    }
}

#[test]
fn locate_falls_back_to_a_similar_package() {
    match locate_crate(&workspace(&["foo-core", "foo-utils"]), "foo-core-x") {
        Ok(Located::Similar { name, path, available }) => {
            assert_eq!(name, "foo-core");
            assert_eq!(path, "/r/crates/foo-core");
            assert_eq!(available.len(), 2);
        }
        _ => panic!("expected a similar package"),
    }
    match locate_crate(&workspace(&["foo-core"]), "foo-core") {
        Ok(Located::Exact { path }) => assert_eq!(path, "/r/crates/foo-core"),
        _ => panic!("expected the package itself"),
    }
}

#[test]
fn locate_failures_are_told_apart() {
    match locate_crate(&workspace(&["alpha"]), "zeta") {
        Err(LocateError::NoSimilar { crate_name, available }) => {
            assert_eq!(crate_name, "zeta");
            assert_eq!(available, vec![("alpha".to_string(), "/r/crates/alpha".to_string())]);
        }
        _ => panic!("expected no similar package"),
    }
    match locate_crate(&workspace(&[]), "zeta") {
        Err(LocateError::Layout { cause: LayoutError::NotFound { workspace, .. } }) => {
            assert!(workspace)
        }
        _ => panic!("expected a layout failure"),
    }
}

#[test]
fn git_dependency_end_to_end() {
    let manifest = CargoToml {
        dependencies: Some(vec![(
            "widget".to_string(),
            DependencyDefinition::Detailed {
                version: None,
                git: Some("https://example.com/acme/widget.git".to_string()),
                branch: Some("dev".to_string()),
                tag: None,
                rev: None,
                path: None,
            },
        )]),
        dev_dependencies: None,
        build_dependencies: None,
    };
    let dep = manifest.find_dependency("widget");
    let info = match plan_crate("widget", dep) {
        Ok(CrateSource::Known(info)) => info,
        _ => panic!("expected a known source"),
    };
    assert_eq!(info.repository_url, "https://example.com/acme/widget.git");
    assert_eq!(
        clean_repository_url(&info.repository_url).ok().unwrap(),
        "https://example.com/acme/widget.git"
    );
    let tree = RepoTree {
        root: "/p/crates/widget".to_string(),
        manifest: RootManifest::Parsed { workspace: None },
        probes: vec![probe("", &["src"], ManifestState::Package("widget".to_string()))],
    };
    let path = match locate_crate(&tree, &info.name) {
        Ok(Located::Exact { path }) => path,
        _ => panic!("expected the tree root"),
    };
    assert_eq!(path, "/p/crates/widget");
    let mut config = CargoConfig::default();
    config.add_patch_with_source(&info.name, &path, &info.patch_source(), "/p");
    assert_eq!(
        config.patches_for("https://example.com/acme/widget.git"),
        vec![("widget".to_string(), "crates/widget".to_string())]
    );
    assert!(config.list_patches().is_empty());
}

#[test]
fn declared_git_address_is_cleaned_but_groups_as_declared() {
    match plan_crate("widget", Some(git_dep("widget", "https://github.com/acme/widget", None))) {
        Ok(CrateSource::Known(info)) => {
            assert_eq!(info.repository_url, "https://github.com/acme/widget.git");
            assert_eq!(info.patch_source(), "https://github.com/acme/widget");
        }
        _ => panic!("expected a known source"),
    }
    assert!(matches!(
        plan_crate("widget", Some(git_dep("widget", "file:///srv/widget", None))),
        Err(PlanError::Repository(_))
    ));
}
