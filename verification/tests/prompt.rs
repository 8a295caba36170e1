use artemis::prompt::{
    truncate_for_prompt, ActiveShellJob, ForgePrompt, PromptUsage, CORNER_TL, CORNER_TR,
    EMPTY_MARKER, INPUT_CURSOR, VERTICAL,
};
use nu_ansi_term::{Color, Style};

fn default_prompt() -> ForgePrompt {
    ForgePrompt::new(".".to_string(), "artemis".to_string(), None)
}

fn usage(total_tokens: u64, approx: bool, label: &str, cost: Option<f64>) -> PromptUsage {
    PromptUsage {
        total_tokens,
        approx,
        tokens_label: label.to_string(),
        cost_label: cost.map(|c| format!("{c:.2}")),
    }
}

#[test]
fn test_render_prompt_left_has_box_frame() {
    let prompt = default_prompt();
    let actual = prompt.render_prompt_left();

    // Top border corners present
    assert!(actual.contains(CORNER_TL));
    assert!(actual.contains(CORNER_TR));
    // Input cursor present
    assert!(actual.contains(INPUT_CURSOR));
}

#[test]
fn test_render_prompt_left_shows_agent_name() {
    let prompt = default_prompt();
    let actual = prompt.render_prompt_left();

    assert!(actual.contains("ARTEMIS"));
}

#[test]
fn test_render_prompt_left_with_branch() {
    let mut prompt = default_prompt();
    prompt.git_branch = Some("main".to_string());
    let actual = prompt.render_prompt_left();

    assert!(actual.contains("main"));
}

#[test]
fn test_render_prompt_right_is_empty() {
    let mut prompt = default_prompt();
    prompt.model("gpt-4".to_string());

    let actual = prompt.render_prompt_right();
    assert_eq!(actual.as_str(), "");
}

#[test]
fn test_render_prompt_right_active_with_tokens() {
    let mut prompt = default_prompt();
    prompt.usage(usage(30, true, "30", None));

    let actual = prompt.render_prompt_right();
    assert_eq!(actual.as_str(), "");
}

#[test]
fn test_render_prompt_right_with_running_job() {
    let mut prompt = default_prompt();
    prompt.active_shell_job(
        ActiveShellJob::default()
            .job_id(42_u64)
            .command("cargo test --package artemis_main")
            .running(true)
            .preview("Compiling artemis_main v0.1.0"),
    );

    let actual = prompt.render_prompt_right();

    assert!(actual.contains("job #42 running"));
    assert!(actual.contains("cargo test --package"));
    assert!(actual.contains("Compiling artemis_main"));
}

#[test]
fn test_render_prompt_multiline_indicator() {
    let prompt = default_prompt();
    let actual = prompt.render_prompt_multiline_indicator();
    assert!(actual.contains(VERTICAL));
}

#[test]
fn test_render_prompt_history_search_indicator_passing() {
    let prompt = default_prompt();
    let actual = prompt.render_prompt_history_search_indicator(false, "test");
    let expected = Style::new().fg(Color::White).paint("(reverse-search: test) ").to_string();
    assert_eq!(actual, expected);
}

#[test]
fn test_render_prompt_history_search_indicator_failing() {
    let prompt = default_prompt();
    let actual = prompt.render_prompt_history_search_indicator(true, "test");
    let expected = Style::new()
        .fg(Color::White)
        .paint("(failing reverse-search: test) ")
        .to_string();
    assert_eq!(actual, expected);
}

#[test]
fn test_render_prompt_history_search_indicator_empty_term() {
    let prompt = default_prompt();
    let actual = prompt.render_prompt_history_search_indicator(false, "");
    let expected = Style::new().fg(Color::White).paint("(reverse-search) ").to_string();
    assert_eq!(actual, expected);
}

#[test]
fn test_header_content_shows_model() {
    let mut prompt = default_prompt();
    prompt.model("vendor/model-3".to_string());

    let actual = prompt.header_content();
    assert!(actual.contains("model-3"));
    assert!(!actual.contains("vendor/model-3"));
}

#[test]
fn test_header_content_with_tokens_and_cost() {
    let mut prompt = default_prompt();
    prompt.usage(usage(1500, false, "1.5k", Some(0.01)));

    let actual = prompt.header_content();
    assert!(actual.contains("1.5k"));
    assert!(actual.contains("0.01"));
}

#[test]
fn test_render_prompt_right_strips_provider_prefix() {
    let mut prompt = default_prompt();
    prompt.usage(usage(30, false, "30", None));
    prompt.model("vendor/model-3".to_string());

    let actual = prompt.render_prompt_right();
    assert_eq!(actual.as_str(), "");
}

#[test]
fn test_render_prompt_right_with_cost() {
    let mut prompt = default_prompt();
    prompt.usage(usage(1500, false, "1.5k", Some(0.01)));

    let actual = prompt.render_prompt_right();
    assert_eq!(actual.as_str(), "");
}

#[test]
fn header_lists_segments_in_order() {
    let mut prompt = ForgePrompt::new("/home/me/project".to_string(), "muse".to_string(), Some("dev".to_string()));
    prompt.usage(usage(1500, true, "1.5k", Some(0.5)));
    prompt.model("acme/large-2".to_string());
    let sep = Style::new().fg(Color::DarkGray).paint(" \u{b7} ").to_string();
    let expected = [
        Style::new().bold().fg(Color::Cyan).paint("MUSE").to_string(),
        Style::new().fg(Color::LightGray).paint("project").to_string(),
        Style::new().fg(Color::LightGreen).paint("dev").to_string(),
        Style::new().fg(Color::LightGray).paint("~1.5k tok").to_string(),
        Style::new().fg(Color::Green).paint("$0.50").to_string(),
        Style::new().fg(Color::LightMagenta).paint("large-2").to_string(),
    ]
    .join(&sep);
    assert_eq!(prompt.header_content(), expected);
}

#[test]
fn header_hides_branch_named_like_directory_and_idle_usage() {
    let mut prompt = ForgePrompt::new("/src/main".to_string(), "artemis".to_string(), Some("main".to_string()));
    prompt.usage(usage(0, false, "0", Some(0.0)));
    let sep = Style::new().fg(Color::DarkGray).paint(" \u{b7} ").to_string();
    let expected = [
        Style::new().bold().fg(Color::Cyan).paint("ARTEMIS").to_string(),
        Style::new().fg(Color::LightGray).paint("main").to_string(),
    ]
    .join(&sep);
    assert_eq!(prompt.header_content(), expected);
}

#[test]
fn header_marks_directory_without_name() {
    let prompt = ForgePrompt::new("/".to_string(), "artemis".to_string(), None);
    let expected_dir = Style::new().fg(Color::LightGray).paint(EMPTY_MARKER).to_string();
    assert!(prompt.header_content().contains(&expected_dir));
}

#[test]
fn left_prompt_frames_the_header() {
    let prompt = default_prompt();
    let dg = Style::new().fg(Color::DarkGray);
    let expected = format!(
        "{}{} {} {}{}\n{} ",
        dg.paint(CORNER_TL),
        dg.paint("\u{2500}"),
        prompt.header_content(),
        dg.paint("\u{2500}\u{2500}\u{2500}"),
        dg.paint(CORNER_TR),
        Style::new().bold().fg(Color::Green).paint(INPUT_CURSOR)
    );
    assert_eq!(prompt.render_prompt_left(), expected);
}

#[test]
fn right_prompt_cuts_long_command_and_skips_blank_preview() {
    let mut prompt = default_prompt();
    prompt.active_shell_job(
        ActiveShellJob::default()
            .job_id(7)
            .command("  nmap -sV -p- --script vuln scanme.nmap.org  ")
            .running(true)
            .preview("   "),
    );
    let sep = Style::new().fg(Color::DarkGray).paint(" \u{b7} ").to_string();
    let expected = [
        Style::new().fg(Color::Yellow).paint("job #7 running").to_string(),
        Style::new().fg(Color::LightYellow).paint("nmap -sV -p- --script vul...").to_string(),
    ]
    .join(&sep);
    assert_eq!(prompt.render_prompt_right(), expected);

    let mut stopped = default_prompt();
    stopped.active_shell_job(ActiveShellJob::default().job_id(7).command("ls").running(false));
    assert_eq!(stopped.render_prompt_right(), "");
}

#[test]
fn multiline_indicator_is_padded_to_the_cursor() {
    let prompt = default_prompt();
    let expected = format!("   {} ", Style::new().fg(Color::DarkGray).paint(VERTICAL));
    assert_eq!(prompt.render_prompt_multiline_indicator(), expected);
    assert_eq!(prompt.render_prompt_indicator(), "");
}

#[test]
fn truncation_keeps_short_text_and_cuts_long_text() {
    assert_eq!(truncate_for_prompt("  short  ", 28), "short");
    assert_eq!(truncate_for_prompt("abcdefghij", 10), "abcdefghij");
    assert_eq!(truncate_for_prompt("abcdefghijk", 10), "abcdefg...");
    assert_eq!(truncate_for_prompt("abcdef", 2), "...");
    assert_eq!(truncate_for_prompt("\u{e9}\u{e9}\u{e9}\u{e9}\u{e9}", 4), "\u{e9}...");
}

#[test]
fn refresh_replaces_the_branch() {
    let mut prompt = default_prompt();
    prompt.refresh(Some("feature".to_string()));
    assert_eq!(prompt.git_branch.as_deref(), Some("feature"));
    prompt.refresh(None);
    assert_eq!(prompt.git_branch, None);
}
