use cargo_lpatch::config::{relative_to, CargoConfig, PatchConfig};

#[test]
fn upsert_then_list_shows_the_entry() {
    let mut config = CargoConfig::default();
    config.add_patch("serde", "crates/serde", "/home/u/project");
    assert_eq!(config.list_patches(), vec![("serde".to_string(), "crates/serde".to_string())]);
}

#[test]
fn upsert_twice_keeps_one_entry_with_the_latest_path() {
    let mut config = CargoConfig::default();
    config.insert_patch("crates-io", "serde", "first");
    config.insert_patch("crates-io", "log", "log-dir");
    config.insert_patch("crates-io", "serde", "second");
    assert_eq!(
        config.list_patches(),
        vec![
            ("serde".to_string(), "second".to_string()),
            ("log".to_string(), "log-dir".to_string()),
        ]
    );
}

#[test]
fn absolute_path_under_the_working_directory_becomes_relative() {
    let mut config = CargoConfig::default();
    config.add_patch("serde", "/home/u/project/crates/serde", "/home/u/project");
    assert_eq!(config.list_patches()[0].1, "crates/serde");
    assert_eq!(relative_to("/elsewhere/serde", "/home/u/project"), "/elsewhere/serde");
    assert_eq!(relative_to("crates/serde", "/home/u/project"), "crates/serde");
    assert_eq!(relative_to("/home/u/projectx/a", "/home/u/project"), "/home/u/projectx/a");
}

#[test]
fn groups_are_kept_apart() {
    let mut config = CargoConfig::default();
    config.add_patch_with_source("widget", "crates/widget", "https://example.com/w.git", "/p");
    config.add_patch("serde", "crates/serde", "/p");
    assert_eq!(
        config.patches_for("https://example.com/w.git"),
        vec![("widget".to_string(), "crates/widget".to_string())]
    );
    assert_eq!(config.list_patches(), vec![("serde".to_string(), "crates/serde".to_string())]);
    assert!(config.patches_for("other").is_empty());
}

#[test]
fn remove_absent_name_changes_nothing() {
    let mut config = CargoConfig::default();
    config.add_patch("serde", "crates/serde", "/p");
    assert!(!config.remove_patch("log"));
    assert_eq!(config.list_patches(), vec![("serde".to_string(), "crates/serde".to_string())]);
    let mut empty = CargoConfig::default();
    assert!(!empty.remove_patch("log"));
    assert!(empty.patch.is_none());
}

#[test]
fn remove_prunes_empty_group_and_section() {
    let mut config = CargoConfig::default();
    config.add_patch("serde", "crates/serde", "/p");
    config.add_patch("log", "crates/log", "/p");
    assert!(config.remove_patch("serde"));
    assert_eq!(config.list_patches(), vec![("log".to_string(), "crates/log".to_string())]);
    assert!(config.remove_patch("log"));
    assert!(config.patch.is_none());

    let mut config = CargoConfig::default();
    config.add_patch_with_source("w", "crates/w", "https://example.com/w.git", "/p");
    config.add_patch("serde", "crates/serde", "/p");
    assert!(config.remove_patch("serde"));
    let groups = config.patch.as_ref().unwrap();
    assert_eq!(groups.len(), 1);
    assert_eq!(groups[0].0, "https://example.com/w.git");
}

#[test]
fn other_sections_pass_through() {
    let mut config = CargoConfig::default();
    config.other.push(("build".to_string(), toml::Value::String("x".to_string())));
    config.add_patch("serde", "crates/serde", "/p");
    config.remove_patch("serde");
    assert_eq!(config.other.len(), 1);
    assert_eq!(config.other[0].0, "build");
    assert_eq!(config.other[0].1, toml::Value::String("x".to_string()));
}

#[test]
fn duplicate_keys_are_detected() {
    let mut config = CargoConfig::default();
    assert!(config.well_formed());
    config.add_patch("serde", "a", "/p");
    assert!(config.well_formed());
    config.patch.as_mut().unwrap()[0]
        .1
        .push(("serde".to_string(), PatchConfig { path: "b".to_string() }));
    assert!(!config.well_formed());
    let mut config = CargoConfig::default();
    config.add_patch("serde", "a", "/p");
    config.patch.as_mut().unwrap().push(("crates-io".to_string(), Vec::new()));
    assert!(!config.well_formed());
}

#[test]
fn repeated_section_keys_are_detected() {
    let mut config = CargoConfig::default();
    config.other.push(("build".to_string(), toml::Value::Boolean(true)));
    assert!(config.well_formed());
    config.other.push(("build".to_string(), toml::Value::Boolean(false)));
    assert!(!config.well_formed());
}
