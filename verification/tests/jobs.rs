use artemis::jobs::{JobError, JobTable, WaitOutcome};

#[test]
fn jobs_get_increasing_ids_and_only_one_runs() {
    let mut table = JobTable::new();
    assert_eq!(table.check_can_start(), Ok(()));
    let first = table.register("sleep 5".to_string());
    assert_eq!(first, 1);
    assert_eq!(table.running_job(), Some(1));

    let refused = table.check_can_start().unwrap_err();
    assert_eq!(
        refused,
        JobError::AlreadyRunning { job_id: 1, command: "sleep 5".to_string() }
    );
    assert!(refused.message().contains("Use shell_poll, shell_wait, or shell_kill"));
    assert_eq!(
        refused.message(),
        "Shell job 1 is already running for command `sleep 5`. Use shell_poll, shell_wait, or shell_kill before starting another command."
    );

    table.finish(first, WaitOutcome::Exited(Some(0)));
    assert_eq!(table.check_can_start(), Ok(()));
    let second = table.register("echo 'second'".to_string());
    assert_eq!(second, 2);
    assert_eq!(table.running_job(), Some(2));
}

#[test]
fn snapshot_reports_output_and_exit() {
    let mut table = JobTable::new();
    let id = table.register("echo 'async hello'".to_string());
    table.append_output(id, true, b"async ");
    table.append_output(id, true, b"hello\n");
    table.append_output(id, false, b"warn\n");
    let running = table.snapshot(id).unwrap();
    assert!(running.running);
    assert_eq!(running.output.exit_code, None);
    assert_eq!(running.output.stdout, "async hello\n");

    table.finish(id, WaitOutcome::Exited(Some(0)));
    let waited = table.snapshot(id).unwrap();
    assert_eq!(waited.job_id, id);
    assert!(!waited.running);
    assert_eq!(waited.output.exit_code, Some(0));
    assert!(waited.output.stdout.contains("async hello"));
    assert_eq!(waited.output.stderr, "warn\n");
    assert_eq!(waited.output.command, "echo 'async hello'");
    assert!(waited.output.success());
}

#[test]
fn failed_wait_is_reported_on_stderr_with_exit_code_one() {
    let mut table = JobTable::new();
    let id = table.register("sleep 5".to_string());
    table.finish(id, WaitOutcome::Failed("boom".to_string()));
    let snap = table.snapshot(id).unwrap();
    assert_eq!(snap.output.exit_code, Some(1));
    assert_eq!(snap.output.stderr, "\n[forge] failed waiting for process: boom\n");
    assert_eq!(table.is_running(id), Ok(false));
}

#[test]
fn kill_request_is_used_once() {
    let mut table = JobTable::new();
    let id = table.register("sleep 5".to_string());
    assert_eq!(table.take_kill_handle(id), Ok(true));
    assert_eq!(table.take_kill_handle(id), Ok(false));
    assert_eq!(table.take_kill_handle(9), Err(JobError::NotFound(9)));
}

#[test]
fn unknown_jobs_are_not_found() {
    let table = JobTable::new();
    let err = table.snapshot(0).unwrap_err();
    assert_eq!(err, JobError::NotFound(0));
    assert_eq!(err.message(), "Shell job 0 not found");
    assert_eq!(table.is_running(3).unwrap_err().message(), "Shell job 3 not found");
}

#[test]
fn invalid_utf8_output_is_read_lossily() {
    let mut table = JobTable::new();
    let id = table.register("cat bin".to_string());
    table.append_output(id, true, &[b'a', 0xff, b'b']);
    assert_eq!(table.snapshot(id).unwrap().output.stdout, "a\u{fffd}b");
}

#[test]
fn job_ids_count_only_started_jobs() {
    let mut table = JobTable::new();
    let first = table.register("sleep 5".to_string());
    assert!(table.check_can_start().is_err());
    table.finish(first, WaitOutcome::Exited(None));
    let second = table.register("ls".to_string());
    table.finish(second, WaitOutcome::Exited(Some(0)));
    let third = table.register("pwd".to_string());
    assert_eq!((first, second, third), (1, 2, 3));
    assert_eq!(table.next_job_id(), 4);
    assert_eq!(table.snapshot(2).unwrap().output.command, "ls");
}
