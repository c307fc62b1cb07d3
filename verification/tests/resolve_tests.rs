use gitpower::config::{Config, Group, Repository};
use gitpower::resolve::{get_repositories_by_names, resolve, Warning};

fn repo(name: &str) -> Repository {
    Repository {
        name: name.to_string(),
        path: format!("/tmp/{}", name),
        remote: None,
        branch: None,
        groups: None,
    }
}

fn group(name: &str, members: &[&str]) -> Group {
    Group {
        name: name.to_string(),
        repositories: members.iter().map(|m| m.to_string()).collect(),
    }
}

fn sample_config() -> Config {
    Config {
        repositories: vec![repo("alpha"), repo("beta"), repo("gamma")],
        groups: Some(vec![
            group("front", &["alpha", "beta"]),
            group("back", &["beta", "gamma"]),
        ]),
    }
}

fn names(list: &[&str]) -> Vec<String> {
    list.iter().map(|s| s.to_string()).collect()
}

#[test]
fn empty_request_selects_all_in_declaration_order() {
    let config = sample_config();
    let r = resolve(&config, &names(&[]));
    let got: Vec<&str> = r.targets.iter().map(|t| t.name.as_str()).collect();
    assert_eq!(got, vec!["alpha", "beta", "gamma"]);
    assert!(r.warnings.is_empty());
}

#[test]
fn overlapping_groups_deduplicate_first_mention_wins() {
    let config = sample_config();
    let r = resolve(&config, &names(&["front", "back"]));
    let got: Vec<&str> = r.targets.iter().map(|t| t.name.as_str()).collect();
    assert_eq!(got, vec!["alpha", "beta", "gamma"]);
    assert!(r.warnings.is_empty());
}

#[test]
fn direct_name_then_group_keeps_first_position() {
    let config = sample_config();
    let r = resolve(&config, &names(&["beta", "front"]));
    let got: Vec<&str> = r.targets.iter().map(|t| t.name.as_str()).collect();
    assert_eq!(got, vec!["beta", "alpha"]);
}

#[test]
fn repeated_direct_name_appears_once() {
    let config = sample_config();
    let r = resolve(&config, &names(&["gamma", "gamma"]));
    let got: Vec<&str> = r.targets.iter().map(|t| t.name.as_str()).collect();
    assert_eq!(got, vec!["gamma"]);
}

#[test]
fn resolving_twice_yields_identical_output() {
    let config = sample_config();
    let request = names(&["back", "alpha", "nosuch"]);
    let r1 = resolve(&config, &request);
    let r2 = resolve(&config, &request);
    let n1: Vec<&str> = r1.targets.iter().map(|t| t.name.as_str()).collect();
    let n2: Vec<&str> = r2.targets.iter().map(|t| t.name.as_str()).collect();
    assert_eq!(n1, n2);
    assert_eq!(r1.warnings.len(), r2.warnings.len());
}

#[test]
fn unknown_names_give_empty_list_and_warnings() {
    let config = sample_config();
    let r = resolve(&config, &names(&["nope", "nada"]));
    assert!(r.targets.is_empty());
    assert_eq!(r.warnings.len(), 3);
    match &r.warnings[0] {
        Warning::UnknownName { name } => assert_eq!(name, "nope"),
        w => panic!("unexpected warning {:?}", w),
    }
    match &r.warnings[1] {
        Warning::UnknownName { name } => assert_eq!(name, "nada"),
        w => panic!("unexpected warning {:?}", w),
    }
    assert!(matches!(r.warnings[2], Warning::NoValidRepositories));
}

#[test]
fn group_member_missing_warns_and_continues() {
    let config = Config {
        repositories: vec![repo("alpha")],
        groups: Some(vec![group("team", &["ghost", "alpha"])]),
    };
    let r = resolve(&config, &names(&["team"]));
    let got: Vec<&str> = r.targets.iter().map(|t| t.name.as_str()).collect();
    assert_eq!(got, vec!["alpha"]);
    assert_eq!(r.warnings.len(), 1);
    match &r.warnings[0] {
        Warning::GroupMemberMissing { group, member } => {
            assert_eq!(group, "team");
            assert_eq!(member, "ghost");
        }
        w => panic!("unexpected warning {:?}", w),
    }
}

#[test]
fn group_name_beats_repository_name() {
    let config = Config {
        repositories: vec![repo("alpha"), repo("shared")],
        groups: Some(vec![group("shared", &["alpha"])]),
    };
    let r = resolve(&config, &names(&["shared"]));
    let got: Vec<&str> = r.targets.iter().map(|t| t.name.as_str()).collect();
    assert_eq!(got, vec!["alpha"]);
}

#[test]
fn missing_group_list_resolves_direct_names() {
    let config = Config {
        repositories: vec![repo("alpha"), repo("beta")],
        groups: None,
    };
    let r = resolve(&config, &names(&["beta"]));
    let got: Vec<&str> = r.targets.iter().map(|t| t.name.as_str()).collect();
    assert_eq!(got, vec!["beta"]);
    assert!(r.warnings.is_empty());
}

#[test]
fn empty_group_expands_to_nothing() {
    let config = Config {
        repositories: vec![repo("alpha")],
        groups: Some(vec![group("hollow", &[])]),
    };
    let r = resolve(&config, &names(&["hollow"]));
    assert!(r.targets.is_empty());
    assert_eq!(r.warnings.len(), 1);
    assert!(matches!(r.warnings[0], Warning::NoValidRepositories));
}

#[test]
fn two_groups_of_one_name_both_expand() {
    let config = Config {
        repositories: vec![repo("alpha"), repo("beta")],
        groups: Some(vec![group("team", &["alpha"]), group("team", &["beta"])]),
    };
    let r = resolve(&config, &names(&["team"]));
    let got: Vec<&str> = r.targets.iter().map(|t| t.name.as_str()).collect();
    assert_eq!(got, vec!["alpha", "beta"]);
}

#[test]
fn get_repositories_by_names_matches_resolution_targets() {
    let config = sample_config();
    let request = names(&["front", "nosuch"]);
    let from_resolve = resolve(&config, &request);
    let direct = get_repositories_by_names(&config, &request);
    let a: Vec<&str> = from_resolve.targets.iter().map(|t| t.name.as_str()).collect();
    let b: Vec<&str> = direct.iter().map(|t| t.name.as_str()).collect();
    assert_eq!(a, b);
}
