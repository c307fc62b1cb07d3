use gitpower::config::{default_config, Repository};

fn repo_with_remote(remote: Option<&str>) -> Repository {
    Repository {
        name: "r".to_string(),
        path: "/tmp/r".to_string(),
        remote: remote.map(|s| s.to_string()),
        branch: None,
        groups: None,
    }
}

#[test]
fn https_http_and_git_remotes_validate() {
    assert!(repo_with_remote(Some("https://example.com/x.git")).validate().is_ok());
    assert!(repo_with_remote(Some("http://example.com/x.git")).validate().is_ok());
    assert!(repo_with_remote(Some("git@example.com:me/x.git")).validate().is_ok());
}

#[test]
fn unrecognized_remote_is_rejected_with_its_value() {
    let err = repo_with_remote(Some("ftp://example.com/x")).validate().unwrap_err();
    assert_eq!(err, "Invalid remote URL format: ftp://example.com/x");
}

#[test]
fn absent_remote_validates() {
    assert!(repo_with_remote(None).validate().is_ok());
}

#[test]
fn effective_remote_and_branch_default() {
    let bare = repo_with_remote(None);
    assert_eq!(bare.effective_remote(), "origin");
    assert_eq!(bare.effective_branch(), "main");
    let set = Repository {
        name: "r".to_string(),
        path: "/tmp/r".to_string(),
        remote: Some("git@example.com:me/x.git".to_string()),
        branch: Some("develop".to_string()),
        groups: None,
    };
    assert_eq!(set.effective_remote(), "git@example.com:me/x.git");
    assert_eq!(set.effective_branch(), "develop");
}

#[test]
fn bootstrap_config_has_the_example_repository_and_group() {
    let c = default_config();
    assert_eq!(c.repositories.len(), 1);
    let r = &c.repositories[0];
    assert_eq!(r.name, "example-repo");
    assert_eq!(r.path, "~/repos/example");
    assert_eq!(r.remote.as_deref(), Some("origin"));
    assert_eq!(r.branch.as_deref(), Some("main"));
    assert_eq!(r.groups.as_deref(), Some(&["default".to_string()][..]));
    let groups = c.groups.as_ref().unwrap();
    assert_eq!(groups.len(), 1);
    assert_eq!(groups[0].name, "default");
    assert_eq!(groups[0].repositories, vec!["example-repo".to_string()]);
}

#[test]
fn plain_path_is_not_rewritten_by_expansion() {
    let r = Repository {
        name: "r".to_string(),
        path: "/var/data/repo".to_string(),
        remote: None,
        branch: None,
        groups: None,
    };
    assert_eq!(r.expanded_path(), "/var/data/repo");
}

#[test]
fn home_shorthand_is_expanded_when_a_home_exists() {
    let r = Repository {
        name: "r".to_string(),
        path: "~/repos/example".to_string(),
        remote: None,
        branch: None,
        groups: None,
    };
    let expanded = r.expanded_path();
    let expected = shellexpand::tilde("~/repos/example").into_owned();
    assert_eq!(expanded, expected);
    assert!(expanded.ends_with("/repos/example"));
}

#[test]
fn other_user_shorthand_is_not_rewritten() {
    let r = Repository {
        name: "r".to_string(),
        path: "~other/repos/example".to_string(),
        remote: None,
        branch: None,
        groups: None,
    };
    assert_eq!(r.expanded_path(), "~other/repos/example");
}
