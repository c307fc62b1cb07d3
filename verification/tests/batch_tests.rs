use gitpower::batch::{summarize, BatchReport, RepositoryOutcome};
use gitpower::command::{command_report, SpawnResult};
use gitpower::status::{inspect_outcome, InspectOutcome, QueryOutput};
use gitpower::sync::{StepRecord, SyncAction};

fn query(success: bool, stdout: &str) -> QueryOutput {
    QueryOutput { success, stdout: stdout.to_string() }
}

fn inspect_with_status(success: bool) -> RepositoryOutcome {
    let r = inspect_outcome(
        true,
        &query(true, "main\n"),
        &query(success, ""),
        &query(true, "0\t0"),
        &query(true, "origin\n"),
    );
    match r {
        InspectOutcome::PathMissing => RepositoryOutcome::PathMissing,
        InspectOutcome::StatusQueryFailed => RepositoryOutcome::StatusQueryFailed,
        InspectOutcome::Report(rep) => RepositoryOutcome::Status(rep),
    }
}

#[test]
fn one_broken_target_leaves_the_others_successful() {
    let mut report = BatchReport::new();
    report.record(inspect_with_status(true));
    report.record(inspect_with_status(false));
    report.record(inspect_with_status(true));
    let s = report.summary();
    assert_eq!(s.attempted, 3);
    assert_eq!(s.failed, 1);
    assert_eq!(s.succeeded, 2);
    assert!(!s.nothing_to_do);
    assert!(matches!(report.outcomes[0], RepositoryOutcome::Status(_)));
    assert!(matches!(report.outcomes[1], RepositoryOutcome::StatusQueryFailed));
    assert!(matches!(report.outcomes[2], RepositoryOutcome::Status(_)));
}

#[test]
fn empty_batch_is_nothing_to_do() {
    let outcomes: Vec<RepositoryOutcome> = vec![];
    let s = summarize(&outcomes);
    assert_eq!(s.attempted, 0);
    assert_eq!(s.failed, 0);
    assert_eq!(s.succeeded, 0);
    assert!(s.nothing_to_do);
}

#[test]
fn missing_path_counts_as_failure() {
    let outcomes = vec![RepositoryOutcome::PathMissing];
    let s = summarize(&outcomes);
    assert_eq!(s.failed, 1);
    assert_eq!(s.succeeded, 0);
}

#[test]
fn sync_with_failed_step_counts_as_failure() {
    let clean = RepositoryOutcome::Synced {
        log: vec![
            StepRecord { action: SyncAction::QueryStatus, ok: true },
            StepRecord { action: SyncAction::Pull, ok: true },
        ],
    };
    let broken = RepositoryOutcome::Synced {
        log: vec![
            StepRecord { action: SyncAction::QueryStatus, ok: true },
            StepRecord { action: SyncAction::Pull, ok: false },
        ],
    };
    let s = summarize(&vec![clean, broken]);
    assert_eq!(s.attempted, 2);
    assert_eq!(s.failed, 1);
    assert_eq!(s.succeeded, 1);
}

#[test]
fn failed_command_counts_as_failure() {
    let good = command_report(&SpawnResult::Finished {
        success: true,
        code: Some(0),
        stdout: "done\n".to_string(),
        stderr: String::new(),
    });
    let bad = command_report(&SpawnResult::SpawnError { message: "permission denied".to_string() });
    let outcomes = vec![RepositoryOutcome::Command(good), RepositoryOutcome::Command(bad)];
    let s = summarize(&outcomes);
    assert_eq!(s.failed, 1);
    assert_eq!(s.succeeded, 1);
}

#[test]
fn summary_matches_incremental_report() {
    let mut report = BatchReport::new();
    let outcomes = vec![
        RepositoryOutcome::PathMissing,
        inspect_with_status(true),
        RepositoryOutcome::StatusQueryFailed,
    ];
    for o in outcomes {
        report.record(o);
    }
    let incremental = report.summary();
    let direct = summarize(&report.outcomes);
    assert_eq!(incremental, direct);
    assert_eq!(incremental.failed, 2);
}
