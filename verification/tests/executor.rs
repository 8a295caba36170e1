use artemis::executor::{
    command_output, needs_trailing_newline, plan_command, EnvOp, OutputPrinterWriter,
};
use artemis::shell::CommandOutput;

fn env_pairs(ops: &[EnvOp]) -> Vec<(String, Option<String>)> {
    ops.iter()
        .map(|op| match op {
            EnvOp::Assign(k, v) => (k.clone(), Some(v.clone())),
            EnvOp::Remove(k) => (k.clone(), None),
        })
        .collect()
}

#[test]
fn plan_sets_colors_then_forwards_present_variables() {
    let plan = plan_command(
        "bash",
        "echo $FIRST_VAR $SECOND_VAR",
        false,
        true,
        vec![
            ("FIRST_VAR".to_string(), Some("first".to_string())),
            ("MISSING_ENV_VAR".to_string(), None),
            ("SECOND_VAR".to_string(), Some("second".to_string())),
        ],
    );
    assert_eq!(plan.program, "bash");
    assert_eq!(plan.args, vec!["-c".to_string(), "echo $FIRST_VAR $SECOND_VAR".to_string()]);
    assert!(plan.inherit_stdin);
    let s = |x: &str| x.to_string();
    assert_eq!(
        env_pairs(&plan.env_ops),
        vec![
            (s("CLICOLOR_FORCE"), Some(s("1"))),
            (s("FORCE_COLOR"), Some(s("true"))),
            (s("NO_COLOR"), None),
            (s("SBT_OPTS"), Some(s("-Dsbt.color=always"))),
            (s("JAVA_OPTS"), Some(s("-Dsbt.color=always"))),
            (s("GIT_CONFIG_PARAMETERS"), Some(s("'color.ui=always'"))),
            (s("GREP_OPTIONS"), Some(s("--color=always"))),
            (s("FIRST_VAR"), Some(s("first"))),
            (s("SECOND_VAR"), Some(s("second"))),
        ]
    );
}

#[test]
fn plan_uses_the_windows_flag_and_no_stdin_for_jobs() {
    let plan = plan_command("cmd", "echo %TEST_ENV_VAR%", true, false, vec![]);
    assert_eq!(plan.args[0], "/C");
    assert!(!plan.inherit_stdin);
    assert_eq!(plan.env_ops.len(), 7);
}

#[test]
fn command_output_reads_bytes_as_text() {
    let out = command_output("echo 'hello world'".to_string(), b"hello world\n", b"", Some(0));
    assert_eq!(out.stdout, "hello world\n");
    assert_eq!(out.stderr, "");
    assert!(out.success());
}

#[test]
fn success_follows_the_exit_code() {
    let mk = |exit_code| CommandOutput {
        command: String::new(),
        stdout: String::new(),
        stderr: String::new(),
        exit_code,
    };
    assert!(mk(None).success());
    assert!(mk(Some(0)).success());
    assert!(mk(Some(2)).success());
    assert!(!mk(Some(-1)).success());
}

#[test]
fn trailing_newline_is_needed_only_after_unterminated_output() {
    assert!(!needs_trailing_newline(b""));
    assert!(!needs_trailing_newline(b"done\n"));
    assert!(needs_trailing_newline(b"done"));
}

#[test]
fn writers_remember_their_stream() {
    assert!(OutputPrinterWriter::stdout(()).is_stdout());
    assert!(!OutputPrinterWriter::stderr(5u8).is_stdout());
    assert_eq!(*OutputPrinterWriter::stderr(5u8).printer(), 5u8);
}
