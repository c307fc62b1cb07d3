use gitpower::status::{
    inspect_outcome, parse_ahead_behind, parse_porcelain, parse_status_line, remote_status,
    Category, InspectOutcome, QueryOutput, RemoteStatus,
};

fn query(success: bool, stdout: &str) -> QueryOutput {
    QueryOutput { success, stdout: stdout.to_string() }
}

#[test]
fn modified_line_parses_to_category_and_path() {
    let e = parse_status_line("M  src/a.rs").unwrap();
    assert_eq!(e.category, Category::Modified);
    assert_eq!(e.path, "src/a.rs");
}

#[test]
fn untracked_line_parses_to_category_and_path() {
    let e = parse_status_line("?? new.txt").unwrap();
    assert_eq!(e.category, Category::Untracked);
    assert_eq!(e.path, "new.txt");
}

#[test]
fn every_status_code_maps_to_its_category() {
    let cases = [
        ("M  a", Category::Modified),
        ("A  a", Category::Added),
        ("D  a", Category::Deleted),
        ("R  a", Category::Renamed),
        ("C  a", Category::Copied),
        ("U  a", Category::Unmerged),
        ("?? a", Category::Untracked),
        ("XY a", Category::Changed),
    ];
    for (line, want) in cases {
        let e = parse_status_line(line).unwrap();
        assert_eq!(e.category, want, "line {:?}", line);
        assert_eq!(e.path, "a");
    }
}

#[test]
fn staged_and_unstaged_positions_share_the_letter() {
    let staged = parse_status_line("D  gone.txt").unwrap();
    let unstaged = parse_status_line(" D gone.txt").unwrap();
    assert_eq!(staged.category, Category::Deleted);
    assert_eq!(unstaged.category, Category::Deleted);
}

#[test]
fn short_line_parses_to_nothing() {
    assert!(parse_status_line("").is_none());
    assert!(parse_status_line("M ").is_none());
}

#[test]
fn empty_porcelain_output_means_clean() {
    let entries = parse_porcelain("");
    assert!(entries.is_empty());
    let r = inspect_outcome(
        true,
        &query(true, "main\n"),
        &query(true, ""),
        &query(true, "0\t0"),
        &query(true, "origin\n"),
    );
    match r {
        InspectOutcome::Report(rep) => {
            assert!(rep.clean);
            assert!(rep.changes.is_empty());
        }
        other => panic!("unexpected outcome {:?}", other),
    }
}

#[test]
fn porcelain_report_parses_each_line() {
    let entries = parse_porcelain("M  src/a.rs\n?? new.txt\n");
    assert_eq!(entries.len(), 2);
    assert_eq!(entries[0].category, Category::Modified);
    assert_eq!(entries[0].path, "src/a.rs");
    assert_eq!(entries[1].category, Category::Untracked);
    assert_eq!(entries[1].path, "new.txt");
}

#[test]
fn counts_two_behind_three_ahead() {
    assert_eq!(parse_ahead_behind("2\t3"), Some((2, 3)));
}

#[test]
fn counts_trim_surrounding_whitespace() {
    assert_eq!(parse_ahead_behind(" 2\t3\n"), Some((2, 3)));
}

#[test]
fn counts_refuse_missing_tab_or_digits() {
    assert_eq!(parse_ahead_behind("23"), None);
    assert_eq!(parse_ahead_behind("2\tx"), None);
    assert_eq!(parse_ahead_behind("2\t3\t4"), None);
    assert_eq!(parse_ahead_behind(""), None);
}

#[test]
fn counts_refuse_values_that_do_not_fit() {
    assert_eq!(parse_ahead_behind("99999999999999999999\t1"), None);
    assert_eq!(parse_ahead_behind("18446744073709551615\t0"), Some((u64::MAX, 0)));
}

#[test]
fn code_only_line_has_empty_path() {
    let e = parse_status_line("M  ").unwrap();
    assert_eq!(e.category, Category::Modified);
    assert_eq!(e.path, "");
}

#[test]
fn diverged_history_reports_both_sides() {
    let r = remote_status(&query(true, "2\t3"), &query(true, "origin\n"));
    assert_eq!(r, RemoteStatus::Diverged { behind: 2, ahead: 3 });
}

#[test]
fn zero_zero_reports_in_sync_only() {
    let r = remote_status(&query(true, "0\t0"), &query(true, "origin\n"));
    assert_eq!(r, RemoteStatus::InSync);
}

#[test]
fn ahead_only_and_behind_only() {
    assert_eq!(
        remote_status(&query(true, "0\t4"), &query(true, "origin\n")),
        RemoteStatus::Ahead { ahead: 4 }
    );
    assert_eq!(
        remote_status(&query(true, "5\t0"), &query(true, "origin\n")),
        RemoteStatus::Behind { behind: 5 }
    );
}

#[test]
fn failed_count_query_distinguishes_upstream_from_remote() {
    assert_eq!(
        remote_status(&query(false, ""), &query(true, "origin\n")),
        RemoteStatus::NoUpstream
    );
    assert_eq!(remote_status(&query(false, ""), &query(true, "  \n")), RemoteStatus::NoRemote);
    assert_eq!(remote_status(&query(false, ""), &query(false, "")), RemoteStatus::NoRemote);
}

#[test]
fn missing_path_fails_inspection_first() {
    let r = inspect_outcome(
        false,
        &query(true, "main\n"),
        &query(true, ""),
        &query(true, "0\t0"),
        &query(true, "origin\n"),
    );
    assert!(matches!(r, InspectOutcome::PathMissing));
}

#[test]
fn failed_status_query_fails_inspection() {
    let r = inspect_outcome(
        true,
        &query(true, "main\n"),
        &query(false, ""),
        &query(true, "0\t0"),
        &query(true, "origin\n"),
    );
    assert!(matches!(r, InspectOutcome::StatusQueryFailed));
}

#[test]
fn full_inspection_trims_branch_and_parses_changes() {
    let r = inspect_outcome(
        true,
        &query(true, "  feature/x \n"),
        &query(true, "A  new.rs\n"),
        &query(true, "1\t0"),
        &query(true, "origin\n"),
    );
    match r {
        InspectOutcome::Report(rep) => {
            assert_eq!(rep.branch, "feature/x");
            assert!(!rep.clean);
            assert_eq!(rep.changes.len(), 1);
            assert_eq!(rep.changes[0].category, Category::Added);
            assert_eq!(rep.changes[0].path, "new.rs");
            assert_eq!(rep.remote, RemoteStatus::Behind { behind: 1 });
        }
        other => panic!("unexpected outcome {:?}", other),
    }
}

#[test]
fn detached_head_reports_empty_branch() {
    let r = inspect_outcome(
        true,
        &query(true, "\n"),
        &query(true, ""),
        &query(false, ""),
        &query(false, ""),
    );
    match r {
        InspectOutcome::Report(rep) => {
            assert_eq!(rep.branch, "");
            assert_eq!(rep.remote, RemoteStatus::NoRemote);
        }
        other => panic!("unexpected outcome {:?}", other),
    }
}
