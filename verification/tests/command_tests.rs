use gitpower::command::{command_report, CommandStatus, SpawnResult};

fn finished(success: bool, code: Option<i32>, stdout: &str, stderr: &str) -> SpawnResult {
    SpawnResult::Finished {
        success,
        code,
        stdout: stdout.to_string(),
        stderr: stderr.to_string(),
    }
}

#[test]
fn stderr_only_nonzero_exit_reports_code_and_stderr_section() {
    let rep = command_report(&finished(false, Some(2), "", "boom\n"));
    assert_eq!(rep.status, CommandStatus::ExitCode(2));
    assert!(rep.show_stderr);
    assert!(!rep.show_stdout);
    assert_eq!(rep.stderr, "boom\n");
}

#[test]
fn successful_command_shows_its_output() {
    let rep = command_report(&finished(true, Some(0), "hello\n", ""));
    assert_eq!(rep.status, CommandStatus::Succeeded);
    assert!(rep.show_stdout);
    assert!(!rep.show_stderr);
    assert_eq!(rep.stdout, "hello\n");
}

#[test]
fn spawn_failure_is_distinct_from_nonzero_exit() {
    let rep = command_report(&SpawnResult::SpawnError {
        message: "No such file or directory (os error 2)".to_string(),
    });
    assert_eq!(rep.status, CommandStatus::SpawnFailure);
    assert!(rep.status != CommandStatus::ExitCode(2));
    assert!(!rep.show_stdout);
    assert!(!rep.show_stderr);
    assert_eq!(rep.error, "No such file or directory (os error 2)");
}

#[test]
fn finished_command_carries_no_spawn_error() {
    let rep = command_report(&finished(false, Some(1), "", ""));
    assert_eq!(rep.error, "");
}

#[test]
fn missing_exit_code_reports_minus_one() {
    let rep = command_report(&finished(false, None, "", ""));
    assert_eq!(rep.status, CommandStatus::ExitCode(-1));
}

#[test]
fn empty_streams_are_suppressed_even_on_success() {
    let rep = command_report(&finished(true, Some(0), "", ""));
    assert!(!rep.show_stdout);
    assert!(!rep.show_stderr);
}
