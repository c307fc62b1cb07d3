use gitpower::sync::{auto_commit_message, SyncAction, SyncEvent, SyncMachine, SyncState};

fn actions(machine: &SyncMachine) -> Vec<SyncAction> {
    machine.log.iter().map(|r| r.action).collect()
}

#[test]
fn clean_tree_pulls_only() {
    let mut m = SyncMachine::new();
    assert_eq!(m.pending_action(), Some(SyncAction::QueryStatus));
    m.feed(SyncEvent::StatusChecked { ok: true, dirty: false });
    assert_eq!(m.pending_action(), Some(SyncAction::Pull));
    m.feed(SyncEvent::StepFinished { ok: true });
    assert!(m.finished());
    assert_eq!(m.state, SyncState::Done);
    assert_eq!(actions(&m), vec![SyncAction::QueryStatus, SyncAction::Pull]);
    assert!(!actions(&m).contains(&SyncAction::Commit));
    assert!(!actions(&m).contains(&SyncAction::Push));
    assert!(!actions(&m).contains(&SyncAction::StageAll));
}

#[test]
fn dirty_tree_stages_commits_pulls_pushes_in_order() {
    let mut m = SyncMachine::new();
    m.feed(SyncEvent::StatusChecked { ok: true, dirty: true });
    assert_eq!(m.pending_action(), Some(SyncAction::StageAll));
    m.feed(SyncEvent::StepFinished { ok: true });
    assert_eq!(m.pending_action(), Some(SyncAction::Commit));
    m.feed(SyncEvent::StepFinished { ok: true });
    assert_eq!(m.pending_action(), Some(SyncAction::Pull));
    m.feed(SyncEvent::StepFinished { ok: true });
    assert_eq!(m.pending_action(), Some(SyncAction::Push));
    m.feed(SyncEvent::StepFinished { ok: true });
    assert!(m.finished());
    assert_eq!(m.state, SyncState::Done);
    assert_eq!(
        actions(&m),
        vec![
            SyncAction::QueryStatus,
            SyncAction::StageAll,
            SyncAction::Commit,
            SyncAction::Pull,
            SyncAction::Push,
        ]
    );
}

#[test]
fn push_is_attempted_even_after_failed_pull() {
    let mut m = SyncMachine::new();
    m.feed(SyncEvent::StatusChecked { ok: true, dirty: true });
    m.feed(SyncEvent::StepFinished { ok: true });
    m.feed(SyncEvent::StepFinished { ok: true });
    m.feed(SyncEvent::StepFinished { ok: false });
    assert_eq!(m.pending_action(), Some(SyncAction::Push));
    m.feed(SyncEvent::StepFinished { ok: true });
    assert_eq!(m.state, SyncState::Done);
    let pull = m.log.iter().find(|r| r.action == SyncAction::Pull).unwrap();
    assert!(!pull.ok);
    assert!(m.log.iter().any(|r| r.action == SyncAction::Push));
}

#[test]
fn failed_status_query_ends_the_run() {
    let mut m = SyncMachine::new();
    m.feed(SyncEvent::StatusChecked { ok: false, dirty: false });
    assert_eq!(m.state, SyncState::Failed);
    assert!(m.failed());
    assert!(m.finished());
    assert_eq!(m.pending_action(), None);
    assert_eq!(actions(&m), vec![SyncAction::QueryStatus]);
    assert!(!m.log[0].ok);
}

#[test]
fn clean_run_never_pushes_even_with_failed_pull() {
    let mut m = SyncMachine::new();
    m.feed(SyncEvent::StatusChecked { ok: true, dirty: false });
    m.feed(SyncEvent::StepFinished { ok: false });
    assert_eq!(m.state, SyncState::Done);
    assert_eq!(actions(&m), vec![SyncAction::QueryStatus, SyncAction::Pull]);
}

#[test]
fn mismatched_event_changes_nothing() {
    let mut m = SyncMachine::new();
    m.feed(SyncEvent::StepFinished { ok: true });
    assert_eq!(m.state, SyncState::QueryingStatus);
    assert!(m.log.is_empty());
    m.feed(SyncEvent::StatusChecked { ok: true, dirty: false });
    m.feed(SyncEvent::StatusChecked { ok: true, dirty: true });
    assert_eq!(m.state, SyncState::Pulling { had_changes: false });
    assert_eq!(m.log.len(), 1);
}

#[test]
fn automatic_commit_message_is_fixed() {
    assert_eq!(auto_commit_message(), "Automatic commit from GitPower");
}

#[test]
fn events_after_completion_change_nothing() {
    let mut m = SyncMachine::new();
    m.feed(SyncEvent::StatusChecked { ok: true, dirty: false });
    m.feed(SyncEvent::StepFinished { ok: true });
    let before = m.log.len();
    m.feed(SyncEvent::StepFinished { ok: false });
    assert_eq!(m.state, SyncState::Done);
    assert_eq!(m.log.len(), before);
}
