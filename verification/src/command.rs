//! The command executor's reporting rules: what one shell invocation's
//! captured output and exit mean for the per-repository report.

use vstd::prelude::*;

verus! {

/// What spawning the shell produced: either the process finished, with
/// its exit standing and captured streams, or it could not be spawned at
/// all (binary not found, permission denied), with the operating
/// system's error text.
#[derive(Debug)]
pub enum SpawnResult {
    Finished { success: bool, code: Option<i32>, stdout: String, stderr: String },
    SpawnError { message: String },
}

/// How the invocation ended: success, a numeric non-zero exit, or a
/// spawn failure — the latter two are distinct failure kinds.
#[derive(Clone, Copy, Debug, PartialEq, Eq, Structural)]
pub enum CommandStatus {
    Succeeded,
    ExitCode(i32),
    SpawnFailure,
}

/// The displayable report of one command run in one repository: which
/// streams to show (empty streams are suppressed), the streams
/// themselves, how the invocation ended, and — for a spawn failure —
/// the operating system's error text.
#[derive(Debug)]
pub struct CommandReport {
    pub status: CommandStatus,
    pub show_stdout: bool,
    pub show_stderr: bool,
    pub stdout: String,
    pub stderr: String,
    pub error: String,
}

/// The exit code to report: the actual code, or `-1` when the process
/// ended without one.
pub open spec fn reported_code(code: Option<i32>) -> i32 {
    match code {
        Some(v) => v,
        None => (-1) as i32,
    }
}

/// Builds the report of one shell invocation: a stream is shown exactly
/// when it is non-empty, a non-zero exit reports its numeric code, and a
/// spawn failure is its own failure kind with nothing to show but the
/// operating system's error text.
pub fn command_report(r: &SpawnResult) -> (rep: CommandReport)
    ensures
        (match r {
            SpawnResult::Finished { success, code, stdout, stderr } => (rep.status == (
            if *success {
                CommandStatus::Succeeded
            } else {
                CommandStatus::ExitCode(reported_code(*code))
            }) && rep.show_stdout == (stdout@.len() > 0) && rep.show_stderr == (stderr@.len()
                > 0) && rep.stdout@ == stdout@ && rep.stderr@ == stderr@ && rep.error@
                == Seq::<char>::empty()),
            SpawnResult::SpawnError { message } => (rep.status == CommandStatus::SpawnFailure
                && !rep.show_stdout && !rep.show_stderr && rep.stdout@ == Seq::<char>::empty()
                && rep.stderr@ == Seq::<char>::empty() && rep.error@ == message@),
        }),
{
    match r {
        SpawnResult::Finished { success, code, stdout, stderr } => {
            let status = if *success {
                CommandStatus::Succeeded
            } else {
                let c = match code {
                    Some(v) => *v,
                    None => -1,
                };
                CommandStatus::ExitCode(c)
            };
            let out = crate::config::clone_string(stdout);
            let err = crate::config::clone_string(stderr);
            let show_stdout = !out.as_str().is_empty();
            let show_stderr = !err.as_str().is_empty();
            CommandReport {
                status,
                show_stdout,
                show_stderr,
                stdout: out,
                stderr: err,
                error: String::new(),
            }
        },
        SpawnResult::SpawnError { message } => {
            let rep = CommandReport {
                status: CommandStatus::SpawnFailure,
                show_stdout: false,
                show_stderr: false,
                stdout: String::new(),
                stderr: String::new(),
                error: crate::config::clone_string(message),
            };
            rep
        },
    }
}

} // verus!
