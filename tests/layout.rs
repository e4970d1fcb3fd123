use cargo_lpatch::workspace::{
    join_relative, parent_of_pattern, DirProbe, LayoutError, ManifestState, PathKind, RepoTree,
    RootManifest, WorkspaceConfig, WorkspaceDetector,
};

fn dir(path: &str, subdirs: &[&str], manifest: ManifestState) -> DirProbe {
    DirProbe {
        path: path.to_string(),
        kind: PathKind::Dir,
        subdirs: Ok(subdirs.iter().map(|s| s.to_string()).collect()),
        manifest,
    }
}

fn package(name: &str) -> ManifestState {
    ManifestState::Package(name.to_string())
}

fn strings(v: &[&str]) -> Vec<String> {
    v.iter().map(|s| s.to_string()).collect()
}

fn workspace_tree(members: &[&str], exclude: &[&str]) -> RepoTree {
    RepoTree {
        root: "/work/repo".to_string(),
        manifest: RootManifest::Parsed {
            workspace: Some(WorkspaceConfig {
                members: Some(strings(members)),
                exclude: Some(strings(exclude)),
            }),
        },
        probes: vec![
            dir("", &["crates"], ManifestState::NoPackage),
            dir("crates", &["foo", "bar", "internal"], ManifestState::Absent),
            dir("crates/foo", &[], package("foo")),
            dir("crates/bar", &[], package("bar")),
            dir("crates/internal", &[], package("internal")),
        ],
    }
}

#[test]
fn workspace_member_is_found() {
    let tree = workspace_tree(&["crates/*"], &["crates/internal"]);
    assert_eq!(
        WorkspaceDetector::find_crate_path(&tree, "bar").ok().unwrap(),
        "/work/repo/crates/bar"
    );
}

#[test]
fn excluded_member_is_not_found() {
    let tree = workspace_tree(&["crates/*"], &["crates/internal"]);
    match WorkspaceDetector::find_crate_path(&tree, "internal") {
        Err(LayoutError::NotFound { crate_name, workspace }) => {
            assert_eq!(crate_name, "internal");
            assert!(workspace);
        }
        _ => panic!("expected not found"),
    }
}

#[test]
fn inventory_follows_expansion_order() {
    let tree = workspace_tree(&["crates/*"], &["crates/internal"]);
    let inv = WorkspaceDetector::list_workspace_crates(&tree).ok().unwrap();
    assert_eq!(
        inv,
        vec![
            ("foo".to_string(), "/work/repo/crates/foo".to_string()),
            ("bar".to_string(), "/work/repo/crates/bar".to_string()),
        ]
    );
}

#[test]
fn literal_members_and_missing_paths() {
    let tree = workspace_tree(&["crates/foo", "crates/absent"], &[]);
    let inv = WorkspaceDetector::list_workspace_crates(&tree).ok().unwrap();
    assert_eq!(inv, vec![("foo".to_string(), "/work/repo/crates/foo".to_string())]);
    assert!(WorkspaceDetector::find_crate_path(&tree, "bar").is_err());
}

#[test]
fn wildcard_not_ending_in_slash_star_names_nothing() {
    let tree = workspace_tree(&["crates/f*"], &[]);
    assert!(WorkspaceDetector::list_workspace_crates(&tree).ok().unwrap().is_empty());
}

#[test]
fn single_package_tree_is_its_own_root() {
    let tree = RepoTree {
        root: "/work/widget".to_string(),
        manifest: RootManifest::Parsed { workspace: None },
        probes: vec![dir("", &["src"], package("widget"))],
    };
    assert_eq!(WorkspaceDetector::find_crate_path(&tree, "widget").ok().unwrap(), "/work/widget");
    match WorkspaceDetector::find_crate_path(&tree, "other") {
        Err(LayoutError::NotFound { workspace, .. }) => assert!(!workspace),
        _ => panic!("expected not found"),
    }
}

#[test]
fn missing_root_manifest() {
    let tree = RepoTree {
        root: "/work/empty".to_string(),
        manifest: RootManifest::Absent,
        probes: vec![],
    };
    assert!(matches!(
        WorkspaceDetector::find_crate_path(&tree, "x"),
        Err(LayoutError::NoRootManifest)
    ));
    assert!(WorkspaceDetector::list_workspace_crates(&tree).ok().unwrap().is_empty());
}

#[test]
fn unreadable_manifest_and_listing_are_reported() {
    let mut tree = workspace_tree(&["crates/*"], &[]);
    tree.probes[2] = dir("crates/foo", &[], ManifestState::Unreadable("bad toml".to_string()));
    match WorkspaceDetector::find_crate_path(&tree, "bar") {
        Err(LayoutError::Unreadable { path, detail }) => {
            assert_eq!(path, "crates/foo");
            assert_eq!(detail, "bad toml");
        }
        _ => panic!("expected an unreadable manifest"),
    }
    let inv = WorkspaceDetector::list_workspace_crates(&tree).ok().unwrap();
    assert_eq!(inv.len(), 2);

    let mut tree = workspace_tree(&["crates/*"], &[]);
    tree.probes[1].subdirs = Err("permission denied".to_string());
    match WorkspaceDetector::find_crate_path(&tree, "bar") {
        Err(LayoutError::Unreadable { path, .. }) => assert_eq!(path, "crates"),
        _ => panic!("expected an unreadable listing"),
    }
}

#[test]
fn pattern_helpers() {
    assert_eq!(parent_of_pattern("crates/*"), "crates");
    assert_eq!(parent_of_pattern("a/b/*"), "a/b");
    assert_eq!(parent_of_pattern("*"), "");
    assert_eq!(join_relative("", "x"), "x");
    assert_eq!(join_relative("crates", "x"), "crates/x");
}
