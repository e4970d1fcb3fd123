use cargo_lpatch::repository::{
    clean_repository_url, extract_crate_name_from_git_url, is_git_url, name_from_url_path,
    parsable_git_url, repository_from_registry, RepoError,
};

#[test]
fn test_is_git_url() {
    assert!(is_git_url("https://github.com/user/repo.git"));
    assert!(is_git_url("http://github.com/user/repo.git"));
    assert!(is_git_url("git://github.com/user/repo.git"));
    assert!(is_git_url("ssh://git@github.com/user/repo.git"));
    assert!(is_git_url("git@github.com:user/repo.git"));

    assert!(!is_git_url("serde"));
    assert!(!is_git_url("my-crate-name"));
}

#[test]
fn test_extract_crate_name_from_git_url() {
    assert_eq!(
        extract_crate_name_from_git_url("https://github.com/dtolnay/anyhow.git").ok().unwrap(),
        "anyhow"
    );
    assert_eq!(
        extract_crate_name_from_git_url("https://github.com/serde-rs/serde").ok().unwrap(),
        "serde"
    );
    assert_eq!(
        extract_crate_name_from_git_url("git@github.com:tokio-rs/tokio.git").ok().unwrap(),
        "tokio"
    );
}

#[test]
fn clean_strips_tree_suffix_and_adds_archive_suffix_on_github() {
    assert_eq!(
        clean_repository_url("https://github.com/user/repo/tree/main").ok().unwrap(),
        "https://github.com/user/repo.git"
    );
    assert_eq!(
        clean_repository_url("https://github.com/user/repo").ok().unwrap(),
        "https://github.com/user/repo.git"
    );
    assert_eq!(
        clean_repository_url("https://github.com/user/repo/tree/master").ok().unwrap(),
        "https://github.com/user/repo.git"
    );
}

#[test]
fn clean_leaves_other_hosts_alone_but_for_the_tree_suffix() {
    assert_eq!(
        clean_repository_url("https://example.com/user/repo/tree/main").ok().unwrap(),
        "https://example.com/user/repo"
    );
    assert_eq!(
        clean_repository_url("https://example.com/user/repo").ok().unwrap(),
        "https://example.com/user/repo"
    );
}

#[test]
fn clean_keeps_an_existing_archive_suffix() {
    assert_eq!(
        clean_repository_url("https://github.com/acme/widget.git").ok().unwrap(),
        "https://github.com/acme/widget.git"
    );
}

#[test]
fn clean_rejects_what_is_not_clonable() {
    match clean_repository_url("ftp://example.com/repo") {
        Err(RepoError::InvalidRepositoryUrl { url }) => assert_eq!(url, "ftp://example.com/repo"),
        _ => panic!("expected an invalid repository address"),
    }
}

#[test]
fn registry_entry_without_repository_is_an_error() {
    match repository_from_registry("serde", None) {
        Err(RepoError::MissingRepository { crate_name }) => assert_eq!(crate_name, "serde"),
        _ => panic!("expected a missing repository"),
    }
    assert_eq!(
        repository_from_registry("serde", Some("https://github.com/serde-rs/serde".to_string()))
            .ok()
            .unwrap(),
        "https://github.com/serde-rs/serde.git"
    );
}

#[test]
fn scp_addresses_become_https() {
    assert_eq!(
        parsable_git_url("git@github.com:tokio-rs/tokio.git").ok().unwrap(),
        "https://github.com/tokio-rs/tokio.git"
    );
    assert_eq!(parsable_git_url("https://a.b/c").ok().unwrap(), "https://a.b/c");
    assert!(matches!(
        parsable_git_url("git@github.com/no-colon"),
        Err(RepoError::InvalidSshUrl { .. })
    ));
    assert!(matches!(
        parsable_git_url("git@host:a:b"),
        Err(RepoError::InvalidSshUrl { .. })
    ));
}

#[test]
fn unparsable_address_is_a_url_error() {
    assert!(matches!(
        extract_crate_name_from_git_url("http://"),
        Err(RepoError::UrlParse { .. })
    ));
}

#[test]
fn names_from_url_paths() {
    assert_eq!(name_from_url_path("/dtolnay/anyhow.git"), "anyhow");
    assert_eq!(name_from_url_path("//a/b.git.git"), "b");
    assert_eq!(name_from_url_path("/"), "");
    assert_eq!(name_from_url_path("plain"), "plain");
}

#[test]
fn registry_error_keeps_the_cleaned_address() {
    match repository_from_registry("x", Some("ftp://example.com/x/tree/main".to_string())) {
        Err(RepoError::InvalidRepositoryUrl { url }) => assert_eq!(url, "ftp://example.com/x"),
        _ => panic!("expected an invalid repository address"),
    }
}
