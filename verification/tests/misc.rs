use artemis::banner::{align_key, banner_labels_for, choose_banner, label_key_width, DisplayBox};
use artemis::fs_services::ForgeFileRemoveService;
use artemis::prompt::ActiveShellJob;
use artemis::shell::{CommandJobSnapshot, CommandKill, CommandOutput, CommandStart};
use artemis::shell_service::{strip_ansi, Environment, EnvironmentInfra, ForgeShell};
use artemis::state::UIState;

struct FixedEnv;

impl EnvironmentInfra for FixedEnv {
    fn get_environment(&self) -> Environment {
        Environment { cwd: "/work".to_string(), shell: "bash".to_string() }
    }
}

fn output(stdout: &str) -> CommandOutput {
    CommandOutput {
        command: "echo hello".to_string(),
        stdout: stdout.to_string(),
        stderr: "\x1b[31merr\x1b[0m".to_string(),
        exit_code: Some(0),
    }
}

#[test]
fn shell_service_strips_colors_unless_kept() {
    let shell = ForgeShell::new(FixedEnv);
    assert_eq!(shell.shell(), "bash");
    let plain = shell.execute_output(output("\x1b[32mMock output\x1b[m"), false, None);
    assert_eq!(plain.output.stdout, "Mock output");
    assert_eq!(plain.output.stderr, "err");
    assert_eq!(plain.output.exit_code, Some(0));
    assert_eq!(plain.description, None);
    assert_eq!(plain.shell, "bash");

    let kept = shell.execute_output(
        output("\x1b[32mMock output\x1b[m"),
        true,
        Some("Prints hello to stdout".to_string()),
    );
    assert_eq!(kept.output.stdout, "\x1b[32mMock output\x1b[m");
    assert_eq!(kept.description, Some("Prints hello to stdout".to_string()));
}

#[test]
fn shell_service_shapes_job_replies() {
    let shell = ForgeShell::new(FixedEnv);
    let snap = CommandJobSnapshot { job_id: 4, output: output("\x1b[1mx\x1b[0m"), running: true };
    let polled = shell.poll_output(snap.clone(), false);
    assert_eq!(polled.output.job_id, 4);
    assert!(polled.output.running);
    assert_eq!(polled.output.output.stdout, "x");
    let waited = shell.wait_output(snap, true);
    assert_eq!(waited.output.output.stdout, "\x1b[1mx\x1b[0m");
    let start = shell.start_output(CommandStart { job_id: 4, command: "ls".to_string() }, None);
    assert_eq!(start.output.job_id, 4);
    let kill = shell.kill_output(CommandKill { job_id: 4, killed: true });
    assert!(kill.output.killed);
    assert!(ForgeShell::<FixedEnv>::validate_command("ls").is_ok());
}

#[test]
fn ansi_codes_are_stripped() {
    assert_eq!(strip_ansi("\x1b[32mfoo\x1b[m bar".to_string()), "foo bar");
    assert_eq!(strip_ansi("foo\nbar\n".to_string()), "foo\nbar\n");
}

#[test]
fn plain_text_keeps_all_but_control_characters() {
    assert_eq!(strip_ansi("a\tb\n\u{7}c\r\n".to_string()), "ab\nc\n");
    assert_eq!(strip_ansi("caf\u{e9} \u{85}ok".to_string()), "caf\u{e9} ok");
    assert_eq!(strip_ansi("plain text".to_string()), "plain text");
}

#[test]
fn ui_state_starts_in_the_environment_directory() {
    let mut state = UIState::new(Environment { cwd: "/work".to_string(), shell: "zsh".to_string() });
    assert_eq!(state.cwd, "/work");
    assert_eq!(state.conversation_id, None);
    assert_eq!(state.active_shell_job, None);
    state.active_shell_job(ActiveShellJob::default().job_id(3).running(true));
    assert_eq!(state.active_shell_job.as_ref().map(|j| j.job_id), Some(3));
}

#[test]
fn display_box_frames_messages() {
    let tip = DisplayBox::new(vec!["TIP: hi".to_string(), "longer line".to_string()]);
    let expected = "\u{250c}\u{2500}\u{2500}\u{2500}\u{2500}\u{2500}\u{2500}\u{2500}\u{2500}\u{2500}\u{2500}\u{2500}\u{2500}\u{2500}\u{2510}\n\
\u{2502} TIP: hi     \u{2502}\n\
\u{2502} longer line \u{2502}\n\
\u{2514}\u{2500}\u{2500}\u{2500}\u{2500}\u{2500}\u{2500}\u{2500}\u{2500}\u{2500}\u{2500}\u{2500}\u{2500}\u{2500}\u{2518}";
    assert_eq!(tip.render().unwrap(), expected);
    assert_eq!(
        DisplayBox::new(vec![]).render().unwrap(),
        "\u{250c}\u{2500}\u{2500}\u{2510}\n\u{2514}\u{2500}\u{2500}\u{2518}"
    );
}

#[test]
fn display_box_measures_colored_text_by_its_visible_width() {
    let tip = DisplayBox::new(vec!["\x1b[1mab\x1b[0m".to_string(), "abcd".to_string()]);
    let rendered = tip.render().unwrap();
    assert!(rendered.contains("\u{2502} \x1b[1mab\x1b[0m   \u{2502}"));
}

#[test]
fn banner_labels_are_right_aligned() {
    let cli = banner_labels_for(true, "1.2.3");
    assert_eq!(cli.len(), 6);
    assert_eq!(cli[0], ("Version:".to_string(), "1.2.3".to_string()));
    assert_eq!(cli[4].0, "Switch provider:");
    let full = banner_labels_for(false, "1.2.3");
    assert_eq!(full.len(), 8);
    assert_eq!(full[7], ("Quit:".to_string(), ":exit or <CTRL+D>".to_string()));
    let width = label_key_width(&full);
    assert_eq!(width, "New conversation:".len());
    assert_eq!(align_key("Quit:", width), format!("{:>width$} ", "Quit:"));
    assert_eq!(align_key("toolong", 3), "toolong ");
}

#[test]
fn custom_banner_comes_from_the_environment_when_not_empty() {
    let s = |x: &str| Some(x.to_string());
    assert_eq!(choose_banner(s("mine"), s("old"), "default"), "mine");
    assert_eq!(choose_banner(None, s("old"), "default"), "old");
    assert_eq!(choose_banner(s(""), s("old"), "default"), "default");
    assert_eq!(choose_banner(None, None, "default"), "default");
}

#[test]
fn remove_service_is_constructible() {
    let _service = ForgeFileRemoveService::new();
}

#[test]
fn shell_service_keeps_the_given_environment() {
    let env = Environment { cwd: "/w".to_string(), shell: "zsh".to_string() };
    let shell = ForgeShell::with_environment(env, FixedEnv);
    assert_eq!(shell.shell(), "zsh");
    let reply = shell.execute_output(output("x"), true, None);
    assert_eq!(reply.shell, "zsh");
    assert_eq!(ForgeShell::<FixedEnv>::validate_command("cd /tmp && ls"), Ok(()));
    assert_eq!(
        ForgeShell::<FixedEnv>::validate_command("jobs").unwrap_err().message(),
        "Do not use shell with `jobs`. Reuse the background job `job_id` with shell_poll."
    );
}
