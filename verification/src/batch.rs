//! The batch runner's aggregation: per-repository outcomes are recorded
//! strictly in target order, each failure is isolated to its repository,
//! and the summary counts exactly the failed targets.

use vstd::prelude::*;
use crate::command::{CommandReport, CommandStatus};
use crate::status::StatusReport;
use crate::sync::StepRecord;

verus! {

/// The per-repository result of one batch operation.
#[derive(Debug)]
pub enum RepositoryOutcome {
    /// The expanded repository path does not exist on disk.
    PathMissing,
    /// The working-tree status query failed; nothing further was tried.
    StatusQueryFailed,
    /// A status inspection succeeded with this report.
    Status(StatusReport),
    /// A sync run completed; the log records each step and its success.
    Synced { log: Vec<StepRecord> },
    /// A command run produced this report.
    Command(CommandReport),
}

/// Every recorded sync step succeeded.
pub open spec fn sync_steps_ok(log: Seq<StepRecord>) -> bool {
    forall|i: int| 0 <= i < log.len() ==> log[i].ok
}

/// Whether one outcome counts as a failed target: a missing path, a
/// failed status query, a sync run with a failed step, or a command that
/// did not succeed.
pub open spec fn is_failure(o: &RepositoryOutcome) -> bool {
    match o {
        RepositoryOutcome::PathMissing => true,
        RepositoryOutcome::StatusQueryFailed => true,
        RepositoryOutcome::Status(_) => false,
        RepositoryOutcome::Synced { log } => !sync_steps_ok(log@),
        RepositoryOutcome::Command(rep) => !(rep.status == CommandStatus::Succeeded),
    }
}

/// How many of the outcomes are failures.
pub open spec fn count_failures(os: Seq<RepositoryOutcome>) -> nat
    decreases os.len(),
{
    if os.len() == 0 {
        0
    } else {
        count_failures(os.drop_last()) + if is_failure(&os.last()) {
            1nat
        } else {
            0nat
        }
    }
}

/// No outcome counts as a failure twice: the failure count never exceeds
/// the number of outcomes.
pub proof fn lemma_count_failures_le_len(os: Seq<RepositoryOutcome>)
    ensures
        count_failures(os) <= os.len(),
    decreases os.len(),
{
    if os.len() > 0 {
        lemma_count_failures_le_len(os.drop_last());
    }
}

/// The aggregated result of one batch pass.
#[derive(Clone, Copy, Debug, PartialEq, Eq, Structural)]
pub struct BatchSummary {
    /// How many targets were attempted.
    pub attempted: usize,
    /// How many produced a successful outcome.
    pub succeeded: usize,
    /// How many produced a failed outcome.
    pub failed: usize,
    /// An empty target list is nothing to do, not an error.
    pub nothing_to_do: bool,
}

fn outcome_is_failure(o: &RepositoryOutcome) -> (b: bool)
    ensures
        b == is_failure(o),
{
    match o {
        RepositoryOutcome::PathMissing => true,
        RepositoryOutcome::StatusQueryFailed => true,
        RepositoryOutcome::Status(_) => false,
        RepositoryOutcome::Synced { log } => {
            let mut i: usize = 0;
            let mut all_ok = true;
            while i < log.len()
                invariant
                    0 <= i <= log.len(),
                    all_ok == (forall|m: int| 0 <= m < i ==> log@[m].ok),
                decreases log.len() - i,
            {
                if !log[i].ok {
                    all_ok = false;
                }
                i = i + 1;
            }
            !all_ok
        },
        RepositoryOutcome::Command(rep) => !(match rep.status {
            CommandStatus::Succeeded => true,
            _ => false,
        }),
    }
}

/// Summarizes an ordered outcome list: every target counted, the failed
/// ones counted exactly by [`count_failures`], and an empty list reported
/// as nothing to do.
pub fn summarize(outcomes: &Vec<RepositoryOutcome>) -> (s: BatchSummary)
    ensures
        s.attempted == outcomes.len(),
        s.failed == count_failures(outcomes@),
        s.succeeded + s.failed == outcomes.len(),
        s.nothing_to_do == (outcomes.len() == 0),
{
    let mut failed: usize = 0;
    let mut i: usize = 0;
    while i < outcomes.len()
        invariant
            0 <= i <= outcomes.len(),
            failed == count_failures(outcomes@.take(i as int)),
            failed <= i,
        decreases outcomes.len() - i,
    {
        proof {
            assert(outcomes@.take(i + 1).drop_last() =~= outcomes@.take(i as int));
            assert(outcomes@.take(i + 1).last() == outcomes@[i as int]);
        }
        if outcome_is_failure(&outcomes[i]) {
            failed = failed + 1;
        }
        i = i + 1;
    }
    proof {
        assert(outcomes@.take(outcomes@.len() as int) =~= outcomes@);
    }
    BatchSummary {
        attempted: outcomes.len(),
        succeeded: outcomes.len() - failed,
        failed,
        nothing_to_do: outcomes.len() == 0,
    }
}

/// The batch report under construction: outcomes in target order and a
/// failure counter that always matches them.
#[derive(Debug)]
pub struct BatchReport {
    pub outcomes: Vec<RepositoryOutcome>,
    pub failed: usize,
}

impl BatchReport {
    /// The counter matches the recorded outcomes.
    pub open spec fn wf(&self) -> bool {
        self.failed == count_failures(self.outcomes@)
    }

    /// An empty report, ready for the first target.
    pub fn new() -> (r: BatchReport)
        ensures
            r.wf(),
            r.outcomes@ == Seq::<RepositoryOutcome>::empty(),
    {
        let r = BatchReport { outcomes: Vec::new(), failed: 0 };
        proof {
            assert(r.outcomes@ =~= Seq::<RepositoryOutcome>::empty());
        }
        r
    }

    /// Records the outcome of the next target, in order.  A failed
    /// outcome is counted; it never touches any other target's record:
    /// one broken repository cannot abort the batch.
    pub fn record(&mut self, o: RepositoryOutcome)
        requires
            old(self).wf(),
        ensures
            final(self).wf(),
            final(self).outcomes@ == old(self).outcomes@.push(o),
            final(self).failed == old(self).failed + if is_failure(&o) {
                1int
            } else {
                0int
            },
    {
        let fail = outcome_is_failure(&o);
        let ghost old_outcomes = self.outcomes@;
        self.outcomes.push(o);
        proof {
            assert(self.outcomes@.drop_last() =~= old_outcomes);
            lemma_count_failures_le_len(old_outcomes);
        }
        let n = self.outcomes.len();
        proof {
            assert(self.failed < n);
        }
        if fail {
            self.failed = self.failed + 1;
        }
    }

    /// The summary of everything recorded so far.
    pub fn summary(&self) -> (s: BatchSummary)
        requires
            self.wf(),
        ensures
            s.attempted == self.outcomes.len(),
            s.failed == count_failures(self.outcomes@),
            s.succeeded + s.failed == self.outcomes.len(),
            s.nothing_to_do == (self.outcomes.len() == 0),
    {
        proof {
            lemma_count_failures_le_len(self.outcomes@);
        }
        BatchSummary {
            attempted: self.outcomes.len(),
            succeeded: self.outcomes.len() - self.failed,
            failed: self.failed,
            nothing_to_do: self.outcomes.len() == 0,
        }
    }
}

} // verus!
