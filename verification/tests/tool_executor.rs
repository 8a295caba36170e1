use artemis::commands::{CommandRejection, ShellTool};
use artemis::tool_executor::{
    count_lines, dump_plan, DumpRequest, DumpTarget, EditAction, OperationOutput, ShellPlan,
    ToolCallError, ToolExecutor, ToolKind, TruncationLimits,
};

fn executor() -> ToolExecutor<()> {
    ToolExecutor::new(())
}

#[test]
fn paths_are_made_absolute_against_the_working_directory() {
    let ex = executor();
    assert_eq!(ex.normalize_path("/work", "src/main.rs".to_string()), "/work/src/main.rs");
    assert_eq!(ex.normalize_path("/work/", "a.txt".to_string()), "/work/a.txt");
    assert_eq!(ex.normalize_path("/work", "/etc/hosts".to_string()), "/etc/hosts");
    assert_eq!(ex.normalize_path("", "a.txt".to_string()), "a.txt");
}

#[test]
fn edits_need_a_prior_read() {
    let ex = executor();
    let read = vec!["/work/a.rs".to_string(), "b.rs".to_string()];
    assert_eq!(ex.check_prior_read(ToolKind::Patch, false, "a.rs", &read, "/work"), Ok(()));
    assert_eq!(ex.check_prior_read(ToolKind::MultiPatch, false, "b.rs", &read, "/work"), Ok(()));
    let err = ex.check_prior_read(ToolKind::Patch, false, "c.rs", &read, "/work").unwrap_err();
    assert_eq!(err, ToolCallError::ReadRequired(EditAction::Edit));
    assert_eq!(
        err.message(),
        "You must read the file with the read tool before attempting to edit it."
    );
    let err = ex.check_prior_read(ToolKind::Write, true, "c.rs", &read, "/work").unwrap_err();
    assert_eq!(
        err.message(),
        "You must read the file with the read tool before attempting to overwrite it."
    );
    assert_eq!(ex.check_prior_read(ToolKind::Write, false, "c.rs", &read, "/work"), Ok(()));
    assert_eq!(ex.check_prior_read(ToolKind::Read, false, "c.rs", &[], "/work"), Ok(()));
}

#[test]
fn typed_job_tools_are_routed_to_the_tools() {
    let ex = executor();
    assert_eq!(ex.plan_shell("shell_poll 1", None, "/w"), Ok(ShellPlan::Poll { job_id: 1 }));
    assert_eq!(ex.plan_shell(" Shell_Wait 12 ", None, "/w"), Ok(ShellPlan::Wait { job_id: 12 }));
    assert_eq!(ex.plan_shell("shell_kill 3", None, "/w"), Ok(ShellPlan::Kill { job_id: 3 }));
    assert_eq!(
        ex.plan_shell("shell_poll", None, "/w"),
        Err(CommandRejection::ToolNameAsCommand(ShellTool::Poll))
    );
    assert_eq!(
        ex.plan_shell("shell_exec 1", None, "/w"),
        Err(CommandRejection::ToolNameAsCommand(ShellTool::Exec))
    );
}

#[test]
fn other_commands_start_in_the_resolved_directory() {
    let ex = executor();
    assert_eq!(
        ex.plan_shell("cargo build", Some("sub".to_string()), "/w"),
        Ok(ShellPlan::Start { command: "cargo build".to_string(), cwd: "/w/sub".to_string() })
    );
    assert_eq!(
        ex.plan_shell("cargo build", None, "/w"),
        Ok(ShellPlan::Start { command: "cargo build".to_string(), cwd: "/w".to_string() })
    );
    assert_eq!(ex.plan_shell("wait", None, "/w"), Err(CommandRejection::WaitCommand));
    assert_eq!(ex.plan_shell_exec("git status", Some("/repo".to_string()), "/w"), Ok("/repo".to_string()));
    assert_eq!(
        ex.plan_shell_exec("shell_wait 2", None, "/w"),
        Err(CommandRejection::ToolNameAsCommand(ShellTool::Wait))
    );
}

#[test]
fn lines_are_counted_as_str_lines_counts_them() {
    for s in ["", "a", "a\n", "a\nb", "a\n\nb\n", "\n", "\n\n", "x\r\ny"] {
        assert_eq!(count_lines(s), s.lines().count(), "{s:?}");
    }
}

#[test]
fn long_outputs_are_dumped_to_files() {
    let limits = TruncationLimits { max_fetch_chars: 5, max_stdout_prefix_lines: 1, max_stdout_suffix_lines: 1 };
    let req = |target, prefix: &str| DumpRequest { target, prefix: prefix.to_string(), suffix: ".txt".to_string() };
    assert_eq!(
        dump_plan(&OperationOutput::NetFetch { content: "123456".to_string() }, &limits),
        vec![req(DumpTarget::Stdout, "forge_fetch_")]
    );
    assert_eq!(dump_plan(&OperationOutput::NetFetch { content: "12345".to_string() }, &limits), vec![]);
    assert_eq!(
        dump_plan(&OperationOutput::NetFetch { content: "\u{e9}\u{e9}\u{e9}".to_string() }, &limits),
        vec![req(DumpTarget::Stdout, "forge_fetch_")]
    );
    assert_eq!(
        dump_plan(
            &OperationOutput::ShellOutput { stdout: "a\nb\nc".to_string(), stderr: "x\ny".to_string() },
            &limits
        ),
        vec![req(DumpTarget::Stdout, "forge_shell_stdout_")]
    );
    assert_eq!(
        dump_plan(
            &OperationOutput::ShellOutput { stdout: "a\nb\nc\n".to_string(), stderr: "1\n2\n3".to_string() },
            &limits
        ),
        vec![req(DumpTarget::Stdout, "forge_shell_stdout_"), req(DumpTarget::Stderr, "forge_shell_stderr_")]
    );
    assert_eq!(dump_plan(&OperationOutput::Other, &limits), vec![]);
}

#[test]
fn file_tools_get_the_normalized_path_after_the_read_check() {
    let ex = executor();
    let read = vec!["/work/a.rs".to_string()];
    assert_eq!(ex.plan_file_tool(ToolKind::Patch, false, "a.rs", &read, "/work"), Ok("/work/a.rs".to_string()));
    assert_eq!(ex.plan_file_tool(ToolKind::Read, false, "b.rs", &read, "/work"), Ok("/work/b.rs".to_string()));
    assert_eq!(
        ex.plan_file_tool(ToolKind::Write, true, "b.rs", &read, "/work"),
        Err(ToolCallError::ReadRequired(EditAction::Overwrite))
    );
}
