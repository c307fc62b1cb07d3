//! The sync orchestrator: a per-repository state machine that decides,
//! step by step, which version-control action to take next.  The driver
//! performs the action, feeds back whether it succeeded, and the machine
//! advances; no step failure ever gates the remaining steps, only a
//! failed status query ends the run early.

use vstd::prelude::*;

verus! {

/// One action the machine asks the driver to perform.
#[derive(Clone, Copy, Debug, PartialEq, Eq, Structural)]
pub enum SyncAction {
    /// Query the working-tree status.
    QueryStatus,
    /// Stage all pending changes.
    StageAll,
    /// Create a commit with the fixed automatic message.
    Commit,
    /// Pull from the configured remote and branch.
    Pull,
    /// Push to the configured remote and branch.
    Push,
}

/// Where the machine stands in the commit, pull, push sequence.
#[derive(Clone, Copy, Debug, PartialEq, Eq, Structural)]
pub enum SyncState {
    /// Waiting for the working-tree status.
    QueryingStatus,
    /// The tree was dirty; staging everything.
    Staging,
    /// Everything staged; committing.
    Committing,
    /// Pulling; remembers whether local changes were committed.
    Pulling { had_changes: bool },
    /// Local changes were committed; pushing.
    Pushing,
    /// The run completed.
    Done,
    /// The status query failed; the run ended without mutating anything.
    Failed,
}

/// What the driver reports back after performing the pending action.
#[derive(Clone, Copy, Debug, PartialEq, Eq, Structural)]
pub enum SyncEvent {
    /// The status query finished; `dirty` is meaningful only when `ok`.
    StatusChecked { ok: bool, dirty: bool },
    /// A stage, commit, pull or push finished.
    StepFinished { ok: bool },
}

/// One performed action and whether it succeeded, for the per-repository
/// report.
#[derive(Clone, Copy, Debug, PartialEq, Eq, Structural)]
pub struct StepRecord {
    pub action: SyncAction,
    pub ok: bool,
}

/// The action the machine asks for in state `s`, if any.
pub open spec fn spec_pending_action(s: SyncState) -> Option<SyncAction> {
    match s {
        SyncState::QueryingStatus => Some(SyncAction::QueryStatus),
        SyncState::Staging => Some(SyncAction::StageAll),
        SyncState::Committing => Some(SyncAction::Commit),
        SyncState::Pulling { .. } => Some(SyncAction::Pull),
        SyncState::Pushing => Some(SyncAction::Push),
        SyncState::Done => None,
        SyncState::Failed => None,
    }
}

/// Whether the event answers the action pending in state `s`.
pub open spec fn event_applies(s: SyncState, e: SyncEvent) -> bool {
    match s {
        SyncState::QueryingStatus => e is StatusChecked,
        SyncState::Staging => e is StepFinished,
        SyncState::Committing => e is StepFinished,
        SyncState::Pulling { .. } => e is StepFinished,
        SyncState::Pushing => e is StepFinished,
        SyncState::Done => false,
        SyncState::Failed => false,
    }
}

/// Whether the event reports success.
pub open spec fn event_ok(e: SyncEvent) -> bool {
    match e {
        SyncEvent::StatusChecked { ok, .. } => ok,
        SyncEvent::StepFinished { ok } => ok,
    }
}

/// The transition relation.  A failed status query ends the run; a clean
/// tree goes straight to the pull; a dirty tree stages, commits, pulls
/// and then pushes.  Step failures are recorded but never change the
/// route: pull and push are independent.  An event that does not answer
/// the pending action leaves the state unchanged.
pub open spec fn advance_spec(s: SyncState, e: SyncEvent) -> SyncState {
    match s {
        SyncState::QueryingStatus => match e {
            SyncEvent::StatusChecked { ok, dirty } => if !ok {
                SyncState::Failed
            } else if dirty {
                SyncState::Staging
            } else {
                SyncState::Pulling { had_changes: false }
            },
            _ => s,
        },
        SyncState::Staging => match e {
            SyncEvent::StepFinished { .. } => SyncState::Committing,
            _ => s,
        },
        SyncState::Committing => match e {
            SyncEvent::StepFinished { .. } => SyncState::Pulling { had_changes: true },
            _ => s,
        },
        SyncState::Pulling { had_changes } => match e {
            SyncEvent::StepFinished { .. } => if had_changes {
                SyncState::Pushing
            } else {
                SyncState::Done
            },
            _ => s,
        },
        SyncState::Pushing => match e {
            SyncEvent::StepFinished { .. } => SyncState::Done,
            _ => s,
        },
        SyncState::Done => s,
        SyncState::Failed => s,
    }
}

/// One machine step: an applicable event advances the state and records
/// the pending action with the reported success; any other event changes
/// nothing.
pub open spec fn run_step(s: SyncState, log: Seq<StepRecord>, e: SyncEvent) -> (
    SyncState,
    Seq<StepRecord>,
) {
    if event_applies(s, e) {
        let action = match spec_pending_action(s) {
            Some(a) => a,
            None => SyncAction::QueryStatus,
        };
        (advance_spec(s, e), log.push(StepRecord { action, ok: event_ok(e) }))
    } else {
        (s, log)
    }
}

/// The machine folded over a whole event sequence.
pub open spec fn run_events(s: SyncState, log: Seq<StepRecord>, events: Seq<SyncEvent>) -> (
    SyncState,
    Seq<StepRecord>,
)
    decreases events.len(),
{
    if events.len() == 0 {
        (s, log)
    } else {
        let next = run_step(s, log, events[0]);
        run_events(next.0, next.1, events.skip(1))
    }
}

/// The actions a log records, in order.
pub open spec fn actions_of(log: Seq<StepRecord>) -> Seq<SyncAction> {
    log.map_values(|r: StepRecord| r.action)
}

/// The fixed, deterministic message of the automatic commit that sync
/// creates for uncommitted work before pulling.
pub fn auto_commit_message() -> (m: String)
    ensures
        m@ == "Automatic commit from GitPower"@,
{
    String::from_str("Automatic commit from GitPower")
}

/// The per-repository sync state machine, carrying the record of every
/// step taken so far.
#[derive(Debug)]
pub struct SyncMachine {
    pub state: SyncState,
    pub log: Vec<StepRecord>,
}

impl SyncMachine {
    /// A fresh machine, about to ask for the status query.
    pub fn new() -> (m: SyncMachine)
        ensures
            m.state == SyncState::QueryingStatus,
            m.log@ == Seq::<StepRecord>::empty(),
    {
        let m = SyncMachine { state: SyncState::QueryingStatus, log: Vec::new() };
        proof {
            assert(m.log@ =~= Seq::<StepRecord>::empty());
        }
        m
    }

    /// The action the driver should perform next, or nothing when the
    /// run has ended.
    pub fn pending_action(&self) -> (a: Option<SyncAction>)
        ensures
            a == spec_pending_action(self.state),
    {
        match self.state {
            SyncState::QueryingStatus => Some(SyncAction::QueryStatus),
            SyncState::Staging => Some(SyncAction::StageAll),
            SyncState::Committing => Some(SyncAction::Commit),
            SyncState::Pulling { .. } => Some(SyncAction::Pull),
            SyncState::Pushing => Some(SyncAction::Push),
            SyncState::Done => None,
            SyncState::Failed => None,
        }
    }

    /// Whether the run ended in the terminal status-query failure.
    pub fn failed(&self) -> (b: bool)
        ensures
            b == (self.state is Failed),
    {
        match self.state {
            SyncState::Failed => true,
            _ => false,
        }
    }

    /// Whether the run has ended, in completion or in failure.
    pub fn finished(&self) -> (b: bool)
        ensures
            b == (spec_pending_action(self.state) is None),
    {
        match self.state {
            SyncState::Done => true,
            SyncState::Failed => true,
            _ => false,
        }
    }

    /// Feeds the driver's report back into the machine: exactly one
    /// [`run_step`].
    pub fn feed(&mut self, e: SyncEvent)
        ensures
            final(self).state == run_step(old(self).state, old(self).log@, e).0,
            final(self).log@ == run_step(old(self).state, old(self).log@, e).1,
    {
        let applies = match self.state {
            SyncState::QueryingStatus => match e {
                SyncEvent::StatusChecked { .. } => true,
                _ => false,
            },
            SyncState::Staging | SyncState::Committing | SyncState::Pulling { .. }
                | SyncState::Pushing => match e {
                SyncEvent::StepFinished { .. } => true,
                _ => false,
            },
            SyncState::Done | SyncState::Failed => false,
        };
        if applies {
            let action = match self.pending_action() {
                Some(a) => a,
                None => SyncAction::QueryStatus,
            };
            let ok = match e {
                SyncEvent::StatusChecked { ok, .. } => ok,
                SyncEvent::StepFinished { ok } => ok,
            };
            let ghost old_log = self.log@;
            self.log.push(StepRecord { action, ok });
            let next = match self.state {
                SyncState::QueryingStatus => match e {
                    SyncEvent::StatusChecked { ok, dirty } => if !ok {
                        SyncState::Failed
                    } else if dirty {
                        SyncState::Staging
                    } else {
                        SyncState::Pulling { had_changes: false }
                    },
                    _ => self.state,
                },
                SyncState::Staging => SyncState::Committing,
                SyncState::Committing => SyncState::Pulling { had_changes: true },
                SyncState::Pulling { had_changes } => if had_changes {
                    SyncState::Pushing
                } else {
                    SyncState::Done
                },
                SyncState::Pushing => SyncState::Done,
                s => s,
            };
            self.state = next;
        }
    }
}

/// From a pull with no local changes, or from completion, every further
/// recorded action is a pull, and the run can only stand in those two
/// states.
proof fn lemma_pull_only_from_clean(s: SyncState, log: Seq<StepRecord>, events: Seq<SyncEvent>)
    requires
        s == (SyncState::Pulling { had_changes: false }) || s == SyncState::Done,
    ensures
        ({
            let r = run_events(s, log, events);
            (r.0 == (SyncState::Pulling { had_changes: false }) || r.0 == SyncState::Done)
                && r.1.len() >= log.len() && r.1.take(log.len() as int) == log && forall|i: int|
                log.len() <= i < r.1.len() ==> r.1[i].action == SyncAction::Pull
        }),
    decreases events.len(),
{
    if events.len() > 0 {
        let next = run_step(s, log, events[0]);
        assert(next.0 == (SyncState::Pulling { had_changes: false }) || next.0
            == SyncState::Done);
        lemma_pull_only_from_clean(next.0, next.1, events.skip(1));
        let rr = run_events(next.0, next.1, events.skip(1));
        let r = run_events(s, log, events);
        assert(r == rr);
        if event_applies(s, events[0]) {
            assert(next.1 == log.push(
                StepRecord { action: SyncAction::Pull, ok: event_ok(events[0]) },
            ));
            assert(rr.1.take(next.1.len() as int) == next.1);
            assert(forall|m: int| 0 <= m < next.1.len() ==> rr.1[m] == next.1[m]) by {
                assert(forall|m: int| 0 <= m < next.1.len() ==> rr.1.take(next.1.len() as int)[m]
                    == rr.1[m]);
            }
            assert(r.1.take(log.len() as int) =~= log);
            assert(r.1[log.len() as int].action == SyncAction::Pull);
        } else {
            assert(next.1 == log);
        }
    } else {
        assert(log.take(log.len() as int) =~= log);
    }
}

/// A repository whose status check reports a clean working tree never
/// stages, commits, or pushes: the first recorded action is the status
/// query and every action after it is a pull.
pub proof fn lemma_clean_tree_never_pushes(events: Seq<SyncEvent>)
    requires
        events.len() > 0,
        events[0] == (SyncEvent::StatusChecked { ok: true, dirty: false }),
    ensures
        ({
            let r = run_events(SyncState::QueryingStatus, Seq::empty(), events);
            r.1.len() >= 1 && r.1[0].action == SyncAction::QueryStatus && forall|i: int|
                1 <= i < r.1.len() ==> r.1[i].action == SyncAction::Pull
        }),
{
    let log0 = Seq::<StepRecord>::empty();
    let next = run_step(SyncState::QueryingStatus, log0, events[0]);
    assert(next.0 == (SyncState::Pulling { had_changes: false }));
    assert(next.1 == log0.push(StepRecord { action: SyncAction::QueryStatus, ok: true }));
    lemma_pull_only_from_clean(next.0, next.1, events.skip(1));
    let r = run_events(SyncState::QueryingStatus, log0, events);
    assert(r == run_events(next.0, next.1, events.skip(1)));
    assert(r.1.take(1) == next.1);
    assert(r.1[0] == r.1.take(1)[0]);
}

/// A clean run to completion performs exactly the status query and one
/// pull, whatever the pull reports.
pub proof fn lemma_sync_clean_trace(pull_ok: bool)
    ensures
        ({
            let events = seq![
                SyncEvent::StatusChecked { ok: true, dirty: false },
                SyncEvent::StepFinished { ok: pull_ok },
            ];
            let r = run_events(SyncState::QueryingStatus, Seq::empty(), events);
            r.0 == SyncState::Done && actions_of(r.1) == seq![
                SyncAction::QueryStatus,
                SyncAction::Pull,
            ]
        }),
{
    let e0 = SyncEvent::StatusChecked { ok: true, dirty: false };
    let e1 = SyncEvent::StepFinished { ok: pull_ok };
    let events = seq![e0, e1];
    let log0 = Seq::<StepRecord>::empty();
    let n1 = run_step(SyncState::QueryingStatus, log0, e0);
    let n2 = run_step(n1.0, n1.1, e1);
    assert(events.skip(1) =~= seq![e1]);
    assert(seq![e1].skip(1) =~= Seq::<SyncEvent>::empty());
    assert(events[0] == e0 && seq![e1][0] == e1);
    let r = run_events(SyncState::QueryingStatus, log0, events);
    assert(r == run_events(n1.0, n1.1, seq![e1]));
    assert(run_events(n1.0, n1.1, seq![e1]) == run_events(n2.0, n2.1, Seq::<SyncEvent>::empty()));
    assert(r == n2);
    assert(n2.0 == SyncState::Done);
    assert(actions_of(n2.1) =~= seq![SyncAction::QueryStatus, SyncAction::Pull]);
}

/// A dirty run to completion stages, commits, pulls, and pushes, in that
/// order, after the status query — whatever each step reports.  In
/// particular the push is attempted even when the pull failed: the two
/// are independent.
pub proof fn lemma_sync_dirty_trace(stage_ok: bool, commit_ok: bool, pull_ok: bool, push_ok: bool)
    ensures
        ({
            let events = seq![
                SyncEvent::StatusChecked { ok: true, dirty: true },
                SyncEvent::StepFinished { ok: stage_ok },
                SyncEvent::StepFinished { ok: commit_ok },
                SyncEvent::StepFinished { ok: pull_ok },
                SyncEvent::StepFinished { ok: push_ok },
            ];
            let r = run_events(SyncState::QueryingStatus, Seq::empty(), events);
            r.0 == SyncState::Done && actions_of(r.1) == seq![
                SyncAction::QueryStatus,
                SyncAction::StageAll,
                SyncAction::Commit,
                SyncAction::Pull,
                SyncAction::Push,
            ]
        }),
{
    let e0 = SyncEvent::StatusChecked { ok: true, dirty: true };
    let e1 = SyncEvent::StepFinished { ok: stage_ok };
    let e2 = SyncEvent::StepFinished { ok: commit_ok };
    let e3 = SyncEvent::StepFinished { ok: pull_ok };
    let e4 = SyncEvent::StepFinished { ok: push_ok };
    let events = seq![e0, e1, e2, e3, e4];
    let log0 = Seq::<StepRecord>::empty();
    let n1 = run_step(SyncState::QueryingStatus, log0, e0);
    let n2 = run_step(n1.0, n1.1, e1);
    let n3 = run_step(n2.0, n2.1, e2);
    let n4 = run_step(n3.0, n3.1, e3);
    let n5 = run_step(n4.0, n4.1, e4);
    assert(events.skip(1) =~= seq![e1, e2, e3, e4]);
    assert(seq![e1, e2, e3, e4].skip(1) =~= seq![e2, e3, e4]);
    assert(seq![e2, e3, e4].skip(1) =~= seq![e3, e4]);
    assert(seq![e3, e4].skip(1) =~= seq![e4]);
    assert(seq![e4].skip(1) =~= Seq::<SyncEvent>::empty());
    let r = run_events(SyncState::QueryingStatus, log0, events);
    assert(r == run_events(n1.0, n1.1, seq![e1, e2, e3, e4]));
    assert(run_events(n1.0, n1.1, seq![e1, e2, e3, e4]) == run_events(n2.0, n2.1, seq![
        e2,
        e3,
        e4,
    ]));
    assert(run_events(n2.0, n2.1, seq![e2, e3, e4]) == run_events(n3.0, n3.1, seq![e3, e4]));
    assert(run_events(n3.0, n3.1, seq![e3, e4]) == run_events(n4.0, n4.1, seq![e4]));
    assert(run_events(n4.0, n4.1, seq![e4]) == run_events(n5.0, n5.1, Seq::<SyncEvent>::empty()));
    assert(r == n5);
    assert(n5.0 == SyncState::Done);
    assert(actions_of(n5.1) =~= seq![
        SyncAction::QueryStatus,
        SyncAction::StageAll,
        SyncAction::Commit,
        SyncAction::Pull,
        SyncAction::Push,
    ]);
}

/// A failed status query ends the run at once: nothing but the status
/// query is ever recorded, whatever events follow.
pub proof fn lemma_status_failure_is_terminal(events: Seq<SyncEvent>, dirty: bool)
    requires
        events.len() > 0,
        events[0] == (SyncEvent::StatusChecked { ok: false, dirty: dirty }),
    ensures
        ({
            let r = run_events(SyncState::QueryingStatus, Seq::empty(), events);
            r.0 == SyncState::Failed && r.1 == seq![
                StepRecord { action: SyncAction::QueryStatus, ok: false },
            ]
        }),
{
    let log0 = Seq::<StepRecord>::empty();
    let next = run_step(SyncState::QueryingStatus, log0, events[0]);
    assert(next.0 == SyncState::Failed);
    lemma_terminal_stays(SyncState::Failed, next.1, events.skip(1));
    let r = run_events(SyncState::QueryingStatus, log0, events);
    assert(r == run_events(next.0, next.1, events.skip(1)));
    assert(next.1 =~= seq![StepRecord { action: SyncAction::QueryStatus, ok: false }]);
}

/// Once the run has ended, further events change nothing.
proof fn lemma_terminal_stays(s: SyncState, log: Seq<StepRecord>, events: Seq<SyncEvent>)
    requires
        s == SyncState::Done || s == SyncState::Failed,
    ensures
        run_events(s, log, events) == (s, log),
    decreases events.len(),
{
    if events.len() > 0 {
        lemma_terminal_stays(s, log, events.skip(1));
    }
}

} // verus!
