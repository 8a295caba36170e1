//! Checks applied to shell command text before anything is run.
//!
//! Two checks exist: the tool executor's guardrail, which also refuses the
//! names of the background-job tools typed as commands, and the shell
//! service's own check, which refuses blank commands. Both refuse the usual
//! ways of babysitting a background job from the shell (`wait`, `jobs`,
//! `sleep`, `ps | grep`, `cat /tmp/...`).
use vstd::prelude::*;
use crate::text::{
    ascii_lower, contains, has_infix, has_prefix, lower_ascii, parse_u64, parse_u64_chars, starts_with,
    to_chars, trim, trim_chars,
};

verus! {

/// The background-job tools whose names are sometimes typed as commands.
#[derive(Debug, Clone, Copy, PartialEq, Eq, Structural)]
pub enum ShellTool {
    Poll,
    Wait,
    Kill,
    Exec,
}

/// The tool's name as the model sees it.
pub open spec fn tool_name(t: ShellTool) -> Seq<char> {
    match t {
        ShellTool::Poll => "shell_poll"@,
        ShellTool::Wait => "shell_wait"@,
        ShellTool::Kill => "shell_kill"@,
        ShellTool::Exec => "shell_exec"@,
    }
}

impl ShellTool {
    /// The tool's name as the model sees it.
    pub fn name(&self) -> (r: &'static str)
        ensures
            r@ == tool_name(*self),
    {
        match self {
            ShellTool::Poll => "shell_poll",
            ShellTool::Wait => "shell_wait",
            ShellTool::Kill => "shell_kill",
            ShellTool::Exec => "shell_exec",
        }
    }
}

/// Why a shell command was refused.
#[derive(Debug, Clone, Copy, PartialEq, Eq, Structural)]
pub enum CommandRejection {
    /// The command is empty or only whitespace.
    EmptyCommand,
    /// The command is the name of a tool, used as if it were a program.
    ToolNameAsCommand(ShellTool),
    /// The command waits on shell jobs.
    WaitCommand,
    /// The command lists shell jobs.
    JobsCommand,
    /// The command sleeps to watch a background job.
    SleepMonitoring,
    /// The command greps the process list to watch a background job.
    ProcessGrepMonitoring,
    /// The command reads a file under `/tmp/` to watch a background job.
    TmpOutputInspection,
}

/// The text the user sees for each refusal.
pub open spec fn rejection_message(r: CommandRejection) -> Seq<char> {
    match r {
        CommandRejection::EmptyCommand => "Command string is empty or contains only whitespace"@,
        CommandRejection::ToolNameAsCommand(t) => "`"@ + tool_name(t)
            + "` is a tool name, not a shell command. Call it directly as a tool using its parameters (e.g., job_id=<number>), do not pass it to `shell`."@,
        CommandRejection::WaitCommand => "Do not use shell with `wait`. Reuse the background job `job_id` with shell_wait."@,
        CommandRejection::JobsCommand => "Do not use shell with `jobs`. Reuse the background job `job_id` with shell_poll."@,
        CommandRejection::SleepMonitoring => "Do not use shell with `sleep` to monitor a background command. Return control to the user or reuse the existing `job_id` with shell_poll."@,
        CommandRejection::ProcessGrepMonitoring => "Do not use `ps ... | grep ...` to monitor a background shell command. Reuse the existing `job_id` with shell_poll."@,
        CommandRejection::TmpOutputInspection => "Do not use shell with `cat /tmp/...` to inspect background command output. Use the read tool for files or reuse the existing `job_id` with shell_poll/shell_wait."@,
    }
}

impl CommandRejection {
    /// The text the user sees for this refusal.
    pub fn message(&self) -> (m: String)
        ensures
            m@ == rejection_message(*self),
    {
        match self {
            CommandRejection::EmptyCommand => String::from_str(
                "Command string is empty or contains only whitespace",
            ),
            CommandRejection::ToolNameAsCommand(t) => {
                let mut m = String::from_str("`");
                m.append(t.name());
                m.append(
                    "` is a tool name, not a shell command. Call it directly as a tool using its parameters (e.g., job_id=<number>), do not pass it to `shell`.",
                );
                m
            },
            CommandRejection::WaitCommand => String::from_str(
                "Do not use shell with `wait`. Reuse the background job `job_id` with shell_wait.",
            ),
            CommandRejection::JobsCommand => String::from_str(
                "Do not use shell with `jobs`. Reuse the background job `job_id` with shell_poll.",
            ),
            CommandRejection::SleepMonitoring => String::from_str(
                "Do not use shell with `sleep` to monitor a background command. Return control to the user or reuse the existing `job_id` with shell_poll.",
            ),
            CommandRejection::ProcessGrepMonitoring => String::from_str(
                "Do not use `ps ... | grep ...` to monitor a background shell command. Reuse the existing `job_id` with shell_poll.",
            ),
            CommandRejection::TmpOutputInspection => String::from_str(
                "Do not use shell with `cat /tmp/...` to inspect background command output. Use the read tool for files or reuse the existing `job_id` with shell_poll/shell_wait.",
            ),
        }
    }
}

/// The command as both checks read it: trimmed, then ASCII lower-cased.
pub open spec fn lowered(cmd: Seq<char>) -> Seq<char> {
    ascii_lower(trim(cmd))
}

/// `l` is the tool's name alone or followed by a space.
pub open spec fn names_tool(l: Seq<char>, t: ShellTool) -> bool {
    l == tool_name(t) || has_prefix(l, tool_name(t) + " "@)
}

/// `l` is the word `w` alone or followed by a space.
pub open spec fn is_word_command(l: Seq<char>, w: Seq<char>) -> bool {
    l == w || has_prefix(l, w + " "@)
}

/// The job-babysitting patterns that both checks refuse, tested in order on
/// the lowered command.
pub open spec fn monitoring_issue(l: Seq<char>) -> Option<CommandRejection> {
    if is_word_command(l, "wait"@) {
        Some(CommandRejection::WaitCommand)
    } else if is_word_command(l, "jobs"@) {
        Some(CommandRejection::JobsCommand)
    } else if has_prefix(l, "sleep "@) || has_infix(l, "&& sleep "@) || has_infix(l, "; sleep "@) {
        Some(CommandRejection::SleepMonitoring)
    } else if has_prefix(l, "ps "@) && has_infix(l, "grep"@) {
        Some(CommandRejection::ProcessGrepMonitoring)
    } else if has_prefix(l, "cat /tmp/"@) || has_infix(l, "&& cat /tmp/"@) {
        Some(CommandRejection::TmpOutputInspection)
    } else {
        None
    }
}

/// The tool executor's finding: blank commands pass (the shell service
/// refuses them later), tool names are refused first, in the order
/// poll, wait, kill, exec, then the babysitting patterns.
pub open spec fn guardrail_finding(cmd: Seq<char>) -> Option<CommandRejection> {
    let l = lowered(cmd);
    if trim(cmd).len() == 0 {
        None
    } else if names_tool(l, ShellTool::Poll) {
        Some(CommandRejection::ToolNameAsCommand(ShellTool::Poll))
    } else if names_tool(l, ShellTool::Wait) {
        Some(CommandRejection::ToolNameAsCommand(ShellTool::Wait))
    } else if names_tool(l, ShellTool::Kill) {
        Some(CommandRejection::ToolNameAsCommand(ShellTool::Kill))
    } else if names_tool(l, ShellTool::Exec) {
        Some(CommandRejection::ToolNameAsCommand(ShellTool::Exec))
    } else {
        monitoring_issue(l)
    }
}

/// The shell service's finding: blank commands are refused, then the
/// babysitting patterns.
pub open spec fn command_finding(cmd: Seq<char>) -> Option<CommandRejection> {
    if trim(cmd).len() == 0 {
        Some(CommandRejection::EmptyCommand)
    } else {
        monitoring_issue(lowered(cmd))
    }
}

/// `Ok(())` when there is no refusal, else the refusal.
pub open spec fn finding_result(v: Option<CommandRejection>) -> Result<(), CommandRejection> {
    match v {
        Some(r) => Err(r),
        None => Ok(()),
    }
}

/// Whether two character sequences are equal.
pub fn same_chars(a: &[char], b: &[char]) -> (r: bool)
    ensures
        r == (a@ == b@),
{
    if a.len() != b.len() {
        return false;
    }
    let r = starts_with(a, b);
    assert(a@.take(b@.len() as int) =~= a@);
    r
}

fn concat_chars(a: &[char], b: &str) -> (r: Vec<char>)
    ensures
        r@ == a@ + b@,
{
    let mut r: Vec<char> = Vec::new();
    let mut i: usize = 0;
    while i < a.len()
        invariant
            i <= a@.len(),
            r@ == a@.take(i as int),
        decreases a@.len() - i,
    {
        r.push(a[i]);
        assert(r@ =~= a@.take(i + 1));
        i = i + 1;
    }
    let tail = to_chars(b);
    let mut j: usize = 0;
    while j < tail.len()
        invariant
            j <= tail@.len(),
            tail@ == b@,
            r@ == a@ + tail@.take(j as int),
        decreases tail@.len() - j,
    {
        r.push(tail[j]);
        assert(r@ =~= a@ + tail@.take(j + 1));
        j = j + 1;
    }
    assert(a@.take(a@.len() as int) =~= a@);
    assert(tail@.take(tail@.len() as int) =~= tail@);
    r
}

/// Whether `l` is the word `w` alone or followed by a space.
fn word_command(l: &[char], w: &str) -> (r: bool)
    ensures
        r == is_word_command(l@, w@),
{
    let word = to_chars(w);
    if same_chars(l, &word) {
        return true;
    }
    let spaced = concat_chars(&word, " ");
    starts_with(l, &spaced)
}

fn prefix_str(l: &[char], p: &str) -> (r: bool)
    ensures
        r == has_prefix(l@, p@),
{
    let pc = to_chars(p);
    starts_with(l, &pc)
}

fn infix_str(l: &[char], p: &str) -> (r: bool)
    ensures
        r == has_infix(l@, p@),
{
    let pc = to_chars(p);
    contains(l, &pc)
}

/// Whether the lowered command names the tool.
fn tool_named(l: &[char], t: ShellTool) -> (r: bool)
    ensures
        r == names_tool(l@, t),
{
    word_command(l, t.name())
}

/// The babysitting pattern the lowered command matches, if any.
pub fn find_monitoring_issue(l: &[char]) -> (r: Option<CommandRejection>)
    ensures
        r == monitoring_issue(l@),
{
    if word_command(l, "wait") {
        Some(CommandRejection::WaitCommand)
    } else if word_command(l, "jobs") {
        Some(CommandRejection::JobsCommand)
    } else if prefix_str(l, "sleep ") || infix_str(l, "&& sleep ") || infix_str(l, "; sleep ") {
        Some(CommandRejection::SleepMonitoring)
    } else if prefix_str(l, "ps ") && infix_str(l, "grep") {
        Some(CommandRejection::ProcessGrepMonitoring)
    } else if prefix_str(l, "cat /tmp/") || infix_str(l, "&& cat /tmp/") {
        Some(CommandRejection::TmpOutputInspection)
    } else {
        None
    }
}

/// The trimmed and lowered characters of a command.
pub fn lower_command(command: &str) -> (r: (Vec<char>, Vec<char>))
    ensures
        r.0@ == trim(command@),
        r.1@ == lowered(command@),
{
    let chars = to_chars(command);
    let trimmed = trim_chars(&chars);
    let low = lower_ascii(&trimmed);
    (trimmed, low)
}

/// The tool executor's check on the text given to the `shell` and
/// `shell_exec` tools.
pub fn validate_shell_guardrail(command: &str) -> (r: Result<(), CommandRejection>)
    ensures
        r == finding_result(guardrail_finding(command@)),
{
    let (trimmed, l) = lower_command(command);
    if trimmed.len() == 0 {
        return Ok(());
    }
    if tool_named(&l, ShellTool::Poll) {
        return Err(CommandRejection::ToolNameAsCommand(ShellTool::Poll));
    }
    if tool_named(&l, ShellTool::Wait) {
        return Err(CommandRejection::ToolNameAsCommand(ShellTool::Wait));
    }
    if tool_named(&l, ShellTool::Kill) {
        return Err(CommandRejection::ToolNameAsCommand(ShellTool::Kill));
    }
    if tool_named(&l, ShellTool::Exec) {
        return Err(CommandRejection::ToolNameAsCommand(ShellTool::Exec));
    }
    match find_monitoring_issue(&l) {
        Some(r) => Err(r),
        None => Ok(()),
    }
}

/// The shell service's check on a command before it is run.
pub fn validate_command(command: &str) -> (r: Result<(), CommandRejection>)
    ensures
        r == finding_result(command_finding(command@)),
{
    let (trimmed, l) = lower_command(command);
    if trimmed.len() == 0 {
        return Err(CommandRejection::EmptyCommand);
    }
    match find_monitoring_issue(&l) {
        Some(r) => Err(r),
        None => Ok(()),
    }
}

/// The job id in a lowered command of the form `<tool> <job_id>`: the text
/// after the tool name and one space, trimmed, read as a `u64`.
pub open spec fn tool_job_id(tool: Seq<char>, lc: Seq<char>) -> Option<u64> {
    if lc == tool {
        None
    } else if has_prefix(lc, tool + " "@) {
        parse_u64(trim(lc.skip(tool.len() as int + 1)))
    } else {
        None
    }
}

/// Reads `lowered_command` as `<tool_name> <job_id>`; `None` when it is not
/// of that form or the id is not a `u64`.
pub fn parse_tool_as_command(tool_name: &str, lowered_command: &str) -> (r: Option<u64>)
    ensures
        r == tool_job_id(tool_name@, lowered_command@),
{
    let lc = to_chars(lowered_command);
    let name = to_chars(tool_name);
    if same_chars(&lc, &name) {
        return None;
    }
    let prefix = concat_chars(&name, " ");
    if starts_with(&lc, &prefix) {
        let mut rest: Vec<char> = Vec::new();
        let mut i: usize = prefix.len();
        while i < lc.len()
            invariant
                prefix@.len() <= i <= lc@.len(),
                rest@ == lc@.subrange(prefix@.len() as int, i as int),
            decreases lc@.len() - i,
        {
            rest.push(lc[i]);
            assert(rest@ =~= lc@.subrange(prefix@.len() as int, i + 1));
            i = i + 1;
        }
        proof {
            reveal_strlit(" ");
        }
        assert(rest@ =~= lc@.skip(name@.len() as int + 1));
        let trimmed = trim_chars(&rest);
        return parse_u64_chars(&trimmed);
    }
    None
}

/// A command that the executor would intercept as `<tool> <job_id>` is one
/// that its guardrail refuses as that tool's name: interception only ever
/// replaces a refusal, never a command that would have run.
pub proof fn lemma_intercepted_commands_are_refused(cmd: Seq<char>, t: ShellTool)
    requires
        tool_job_id(tool_name(t), lowered(cmd)) is Some,
    ensures
        guardrail_finding(cmd) == Some(CommandRejection::ToolNameAsCommand(t)),
{
    reveal_strlit("shell_poll");
    reveal_strlit("shell_wait");
    reveal_strlit("shell_kill");
    reveal_strlit("shell_exec");
    reveal_strlit(" ");
    let l = lowered(cmd);
    let name = tool_name(t);
    assert(has_prefix(l, name + " "@));
    assert(l.len() == trim(cmd).len());
    assert(l.len() >= 11);
    assert(names_tool(l, t));
    // The tool names differ at their seventh character.
    assert(l[6] == (name + " "@)[6]);
    assert forall|u: ShellTool| u != t implies !names_tool(l, u) by {
        let other = tool_name(u);
        if l == other {
            assert(l[6] == other[6]);
        }
        if has_prefix(l, other + " "@) {
            assert(l[6] == (other + " "@)[6]);
        }
    }
}

/// Every non-blank command that the shell service refuses as babysitting
/// a background job, the executor's guardrail refuses too.
pub proof fn lemma_service_refusals_within_guardrail(cmd: Seq<char>)
    requires
        trim(cmd).len() > 0,
        command_finding(cmd) is Some,
    ensures
        guardrail_finding(cmd) is Some,
{
}

/// On a non-blank command that names no tool, the two checks agree
/// exactly.
pub proof fn lemma_checks_agree_without_tool_names(cmd: Seq<char>)
    requires
        trim(cmd).len() > 0,
        forall|u: ShellTool| !names_tool(lowered(cmd), u),
    ensures
        guardrail_finding(cmd) == command_finding(cmd),
{
    assert(!names_tool(lowered(cmd), ShellTool::Poll));
    assert(!names_tool(lowered(cmd), ShellTool::Wait));
    assert(!names_tool(lowered(cmd), ShellTool::Kill));
    assert(!names_tool(lowered(cmd), ShellTool::Exec));
}

/// A job id written in decimal after a tool's name and a space is read
/// back exactly, as the job id printed in replies and prompts.
pub proof fn lemma_tool_job_id_round_trip(t: ShellTool, id: u64)
    ensures
        tool_job_id(tool_name(t), tool_name(t) + " "@ + crate::text::decimal_text(id as nat))
            == Some(id),
{
    reveal_strlit(" ");
    let name = tool_name(t);
    let digits = crate::text::decimal_text(id as nat);
    let lc = name + " "@ + digits;
    crate::text::lemma_decimal_round_trip(id);
    crate::text::lemma_decimal_text_trimmed(id as nat);
    assert(lc.take((name + " "@).len() as int) =~= name + " "@);
    assert(lc.skip(name.len() as int + 1) =~= digits);
    assert(lc.len() > name.len());
}

/// Both checks see through whitespace around a command: padding it with
/// whitespace on either side changes neither finding.
pub proof fn lemma_checks_ignore_padding(pre: Seq<char>, cmd: Seq<char>, post: Seq<char>)
    requires
        crate::text::all_space(pre),
        crate::text::all_space(post),
    ensures
        guardrail_finding(pre + cmd + post) == guardrail_finding(cmd),
        command_finding(pre + cmd + post) == command_finding(cmd),
{
    crate::text::lemma_trim_ignores_padding(pre, cmd, post);
}

/// Both checks ignore the case of ASCII letters: commands that differ
/// only in letter case get the same finding.
pub proof fn lemma_checks_ignore_case(a: Seq<char>, b: Seq<char>)
    requires
        crate::text::same_but_case(a, b),
    ensures
        guardrail_finding(a) == guardrail_finding(b),
        command_finding(a) == command_finding(b),
{
    crate::text::lemma_lowered_ignores_case(a, b);
}

/// Both checks refuse the shell's `wait` and `jobs` builtins used to watch
/// a background job: a command that reads, once trimmed and lower-cased,
/// `wait` or `jobs` alone or followed by a space is refused by the
/// guardrail and by the shell service, as `WaitCommand` or `JobsCommand`.
pub proof fn lemma_wait_and_jobs_are_refused(cmd: Seq<char>)
    ensures
        lowered(cmd) == "wait"@ || has_prefix(lowered(cmd), "wait "@) ==> guardrail_finding(cmd)
            == Some(CommandRejection::WaitCommand) && command_finding(cmd) == Some(
            CommandRejection::WaitCommand,
        ),
        lowered(cmd) == "jobs"@ || has_prefix(lowered(cmd), "jobs "@) ==> guardrail_finding(cmd)
            == Some(CommandRejection::JobsCommand) && command_finding(cmd) == Some(
            CommandRejection::JobsCommand,
        ),
{
    reveal_strlit("wait");
    reveal_strlit("wait ");
    reveal_strlit("jobs");
    reveal_strlit("jobs ");
    reveal_strlit(" ");
    reveal_strlit("shell_poll");
    reveal_strlit("shell_wait");
    reveal_strlit("shell_kill");
    reveal_strlit("shell_exec");
    let l = lowered(cmd);
    assert(l.len() == trim(cmd).len());
    if l == "wait"@ || has_prefix(l, "wait "@) || l == "jobs"@ || has_prefix(l, "jobs "@) {
        assert(l.len() >= 4);
        if has_prefix(l, "wait "@) || has_prefix(l, "jobs "@) {
            assert(l[0] == l.take(5)[0]);
        }
        assert(l[0] == 'w' || l[0] == 'j');
        assert forall|u: ShellTool| !names_tool(l, u) by {
            let name = tool_name(u);
            assert(name[0] == 's');
            if l == name {
                assert(l[0] == name[0]);
            }
            if has_prefix(l, name + " "@) {
                assert(l[0] == (name + " "@)[0]);
            }
        }
        assert(is_word_command(l, "wait"@) == (l == "wait"@ || has_prefix(l, "wait"@ + " "@)));
        assert("wait"@ + " "@ =~= "wait "@);
        assert("jobs"@ + " "@ =~= "jobs "@);
        if l == "jobs"@ || has_prefix(l, "jobs "@) {
            if has_prefix(l, "jobs "@) {
                assert(l[0] == l.take(5)[0]);
            }
            assert(l[0] == 'j');
            assert(!is_word_command(l, "wait"@)) by {
                if has_prefix(l, "wait "@) {
                    assert(l[0] == "wait "@[0]);
                }
            }
        }
    }
}

/// The shell service's check, rule by rule: a blank command is refused as
/// empty; otherwise, on the command trimmed and lower-cased, `wait` or
/// `jobs` alone or with arguments are refused first, then a `sleep` at the
/// start or after `&&` or `;`, then `ps ...` with `grep` in it, then
/// `cat /tmp/...` at the start or after `&&`; anything else passes.
pub proof fn lemma_service_rules(cmd: Seq<char>)
    ensures
        trim(cmd).len() == 0 ==> command_finding(cmd) == Some(CommandRejection::EmptyCommand),
        ({
            let l = lowered(cmd);
            let waits = l == "wait"@ || has_prefix(l, "wait "@);
            let jobs = l == "jobs"@ || has_prefix(l, "jobs "@);
            let sleeps = has_prefix(l, "sleep "@) || has_infix(l, "&& sleep "@) || has_infix(
                l,
                "; sleep "@,
            );
            let greps = has_prefix(l, "ps "@) && has_infix(l, "grep"@);
            let cats = has_prefix(l, "cat /tmp/"@) || has_infix(l, "&& cat /tmp/"@);
            trim(cmd).len() > 0 ==> {
                &&& waits ==> command_finding(cmd) == Some(CommandRejection::WaitCommand)
                &&& jobs ==> command_finding(cmd) == Some(CommandRejection::JobsCommand)
                &&& !waits && !jobs && sleeps ==> command_finding(cmd) == Some(
                    CommandRejection::SleepMonitoring,
                )
                &&& !waits && !jobs && !sleeps && greps ==> command_finding(cmd) == Some(
                    CommandRejection::ProcessGrepMonitoring,
                )
                &&& !waits && !jobs && !sleeps && !greps && cats ==> command_finding(cmd) == Some(
                    CommandRejection::TmpOutputInspection,
                )
                &&& !waits && !jobs && !sleeps && !greps && !cats ==> command_finding(cmd) is None
            }
        }),
{
    lemma_wait_and_jobs_are_refused(cmd);
    reveal_strlit("wait");
    reveal_strlit("jobs");
    reveal_strlit(" ");
    assert("wait"@ + " "@ =~= "wait "@) by {
        reveal_strlit("wait ");
    }
    assert("jobs"@ + " "@ =~= "jobs "@) by {
        reveal_strlit("jobs ");
    }
}

/// The guardrail refuses a tool's name typed as a command: when the
/// command, trimmed and lower-cased, is `shell_poll`, `shell_wait`,
/// `shell_kill` or `shell_exec`, alone or followed by a space, it is
/// refused as that tool's name, whatever follows.
pub proof fn lemma_tool_names_refused(cmd: Seq<char>, t: ShellTool)
    requires
        lowered(cmd) == tool_name(t) || has_prefix(lowered(cmd), tool_name(t) + " "@),
    ensures
        guardrail_finding(cmd) == Some(CommandRejection::ToolNameAsCommand(t)),
{
    reveal_strlit("shell_poll");
    reveal_strlit("shell_wait");
    reveal_strlit("shell_kill");
    reveal_strlit("shell_exec");
    reveal_strlit(" ");
    let l = lowered(cmd);
    let name = tool_name(t);
    assert(l.len() == trim(cmd).len());
    assert(l.len() >= 10);
    if l != name {
        assert(l[6] == l.take((name + " "@).len() as int)[6]);
        assert(l[6] == (name + " "@)[6]);
    }
    assert(l[6] == name[6]);
    assert forall|u: ShellTool| u != t implies !names_tool(l, u) by {
        let other = tool_name(u);
        if l == other {
            assert(l[6] == other[6]);
        }
        if has_prefix(l, other + " "@) {
            assert(l[6] == l.take((other + " "@).len() as int)[6]);
            assert(l[6] == (other + " "@)[6]);
        }
    }
}

} // verus!
