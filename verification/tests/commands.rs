use artemis::commands::{
    parse_tool_as_command, validate_command, validate_shell_guardrail, CommandRejection, ShellTool,
};

#[test]
fn test_validate_shell_guardrail_rejects_wait() {
    let actual = validate_shell_guardrail("wait");

    assert!(actual.is_err());
    assert!(actual.unwrap_err().message().contains("shell_wait"));
}

#[test]
fn test_validate_shell_guardrail_rejects_sleep_monitoring() {
    let actual = validate_shell_guardrail("sleep 30 && cat /tmp/nmap.txt");

    assert!(actual.is_err());
    assert!(actual.unwrap_err().message().contains("shell_poll"));
}

#[test]
fn test_validate_shell_guardrail_rejects_shell_poll_as_command() {
    let actual = validate_shell_guardrail("shell_poll 1");

    assert!(actual.is_err());
    let msg = actual.unwrap_err().message();
    assert!(msg.contains("tool name"), "Expected 'tool name' in: {msg}");
}

#[test]
fn test_validate_shell_guardrail_rejects_shell_wait_as_command() {
    let actual = validate_shell_guardrail("shell_wait 1");

    assert!(actual.is_err());
    let msg = actual.unwrap_err().message();
    assert!(msg.contains("tool name"), "Expected 'tool name' in: {msg}");
}

#[test]
fn test_validate_shell_guardrail_rejects_shell_kill_as_command() {
    let actual = validate_shell_guardrail("shell_kill 1");

    assert!(actual.is_err());
    let msg = actual.unwrap_err().message();
    assert!(msg.contains("tool name"), "Expected 'tool name' in: {msg}");
}

#[test]
fn test_validate_shell_guardrail_rejects_shell_exec_as_command() {
    let actual = validate_shell_guardrail("shell_exec nslookup foo.com");

    assert!(actual.is_err());
    let msg = actual.unwrap_err().message();
    assert!(msg.contains("tool name"), "Expected 'tool name' in: {msg}");
}

#[test]
fn test_validate_shell_guardrail_allows_valid_commands() {
    assert!(validate_shell_guardrail("nmap -sV scanme.nmap.org").is_ok());
    assert!(validate_shell_guardrail("nslookup google.com").is_ok());
    assert!(validate_shell_guardrail("git status").is_ok());
}

#[test]
fn test_validate_command_rejects_wait() {
    let actual = validate_command("wait");

    assert!(actual.is_err());
    assert!(actual.unwrap_err().message().contains("shell_wait"));
}

#[test]
fn test_validate_command_rejects_sleep_monitoring() {
    let actual = validate_command("sleep 30 && cat /tmp/nmap.txt");

    assert!(actual.is_err());
    assert!(actual.unwrap_err().message().contains("shell_poll"));
}

#[test]
fn test_validate_command_rejects_ps_grep_monitoring() {
    let actual = validate_command("ps aux | grep nmap");

    assert!(actual.is_err());
    assert!(actual.unwrap_err().message().contains("shell_poll"));
}

#[test]
fn guardrail_lets_blank_commands_through_but_service_refuses_them() {
    assert_eq!(validate_shell_guardrail("   \t\n"), Ok(()));
    assert_eq!(validate_command(""), Err(CommandRejection::EmptyCommand));
    assert_eq!(
        validate_command(" \u{3000} ").unwrap_err().message(),
        "Command string is empty or contains only whitespace"
    );
}

#[test]
fn guardrail_reads_trimmed_lowercase_text() {
    assert_eq!(
        validate_shell_guardrail("  SHELL_POLL 3  "),
        Err(CommandRejection::ToolNameAsCommand(ShellTool::Poll))
    );
    assert_eq!(validate_shell_guardrail("Wait"), Err(CommandRejection::WaitCommand));
    assert_eq!(validate_shell_guardrail("JOBS -l"), Err(CommandRejection::JobsCommand));
    assert_eq!(validate_shell_guardrail("waiter"), Ok(()));
    assert_eq!(validate_shell_guardrail("jobsearch"), Ok(()));
}

#[test]
fn guardrail_checks_tool_names_before_babysitting_patterns() {
    assert_eq!(
        validate_shell_guardrail("shell_poll && sleep 3"),
        Err(CommandRejection::ToolNameAsCommand(ShellTool::Poll))
    );
    assert_eq!(
        validate_command("shell_poll && sleep 3"),
        Err(CommandRejection::SleepMonitoring)
    );
}

#[test]
fn every_refusal_has_its_message() {
    assert_eq!(
        CommandRejection::ToolNameAsCommand(ShellTool::Exec).message(),
        "`shell_exec` is a tool name, not a shell command. Call it directly as a tool using its parameters (e.g., job_id=<number>), do not pass it to `shell`."
    );
    assert_eq!(
        validate_shell_guardrail("make && sleep 5").unwrap_err(),
        CommandRejection::SleepMonitoring
    );
    assert_eq!(
        validate_shell_guardrail("ls; sleep 5").unwrap_err(),
        CommandRejection::SleepMonitoring
    );
    assert_eq!(
        validate_shell_guardrail("ps -ef | grep node").unwrap_err(),
        CommandRejection::ProcessGrepMonitoring
    );
    assert_eq!(
        validate_shell_guardrail("cat /tmp/out.log").unwrap_err(),
        CommandRejection::TmpOutputInspection
    );
    assert_eq!(
        validate_shell_guardrail("make && cat /tmp/out.log").unwrap_err().message(),
        "Do not use shell with `cat /tmp/...` to inspect background command output. Use the read tool for files or reuse the existing `job_id` with shell_poll/shell_wait."
    );
    assert_eq!(
        CommandRejection::JobsCommand.message(),
        "Do not use shell with `jobs`. Reuse the background job `job_id` with shell_poll."
    );
    assert_eq!(validate_shell_guardrail("ps aux"), Ok(()));
}

#[test]
fn tool_names_typed_as_commands_give_their_job_id() {
    assert_eq!(parse_tool_as_command("shell_poll", "shell_poll 1"), Some(1));
    assert_eq!(parse_tool_as_command("shell_poll", "shell_poll   42  "), Some(42));
    assert_eq!(parse_tool_as_command("shell_poll", "shell_poll +7"), Some(7));
    assert_eq!(parse_tool_as_command("shell_poll", "shell_poll"), None);
    assert_eq!(parse_tool_as_command("shell_poll", "shell_poll x"), None);
    assert_eq!(parse_tool_as_command("shell_poll", "shell_poll -1"), None);
    assert_eq!(parse_tool_as_command("shell_poll", "shell_poll +"), None);
    assert_eq!(parse_tool_as_command("shell_poll", "shell_wait 1"), None);
    assert_eq!(
        parse_tool_as_command("shell_kill", "shell_kill 18446744073709551615"),
        Some(u64::MAX)
    );
    assert_eq!(parse_tool_as_command("shell_kill", "shell_kill 18446744073709551616"), None);
}

#[test]
fn service_leaves_command_words_to_the_shell() {
    // The check reads only the babysitting patterns: which programs a
    // command runs, and where, is left to the shell that runs it.
    assert_eq!(validate_command("/bin/ls"), Ok(()));
    assert_eq!(validate_command("cd /tmp && ls"), Ok(()));
    assert_eq!(validate_command("ls; cd .."), Ok(()));
    assert_eq!(validate_command("make || /usr/bin/true"), Ok(()));
    assert_eq!(validate_command("git status"), Ok(()));
    assert_eq!(validate_command("sleep 1; /bin/ls"), Err(CommandRejection::SleepMonitoring));
    assert_eq!(validate_shell_guardrail("cd /tmp && ls"), Ok(()));
}
