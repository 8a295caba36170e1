//! The decisions the tool executor makes around each tool call: which
//! edits need a prior read, where a path points, how a `shell` call is
//! routed, and which outputs are too long to show in full.
use vstd::prelude::*;
use crate::commands::{
    guardrail_finding, lower_command, lowered, parse_tool_as_command, tool_job_id,
    validate_shell_guardrail, CommandRejection,
};
use crate::paths::{is_absolute, is_absolute_path, join, join_path};
use crate::text::opt_text;

verus! {

/// Runs tool calls against a set of services.
pub struct ToolExecutor<S> {
    services: S,
}

/// `path` made absolute against the working directory `cwd`.
pub open spec fn normalized_path(cwd: Seq<char>, path: Seq<char>) -> Seq<char> {
    if is_absolute_path(path) {
        path
    } else {
        join_path(cwd, path)
    }
}

/// The kinds of tool call the executor handles.
#[derive(Debug, Clone, Copy, PartialEq, Eq, Structural)]
pub enum ToolKind {
    Read,
    Write,
    FsSearch,
    SemSearch,
    Remove,
    Patch,
    MultiPatch,
    Undo,
    Shell,
    ShellExec,
    ShellPoll,
    ShellWait,
    ShellKill,
    Fetch,
    Followup,
    Plan,
    Skill,
    TodoWrite,
    TodoRead,
    Task,
}

/// The edits that may only follow a read of the same file.
#[derive(Debug, Clone, Copy, PartialEq, Eq, Structural)]
pub enum EditAction {
    /// A patch of an existing file.
    Edit,
    /// A write that replaces an existing file.
    Overwrite,
}

/// How the refusal names the edit.
pub open spec fn edit_action_text(a: EditAction) -> Seq<char> {
    match a {
        EditAction::Edit => "edit it"@,
        EditAction::Overwrite => "overwrite it"@,
    }
}

/// Why the executor refused a tool call before running it.
#[derive(Debug, Clone, PartialEq, Eq)]
pub enum ToolCallError {
    /// The file was not read before the edit.
    ReadRequired(EditAction),
    /// The shell command was refused.
    Command(CommandRejection),
}

/// The text the user sees for each refusal.
pub open spec fn tool_error_message(e: ToolCallError) -> Seq<char> {
    match e {
        ToolCallError::ReadRequired(a) => "You must read the file with the read tool before attempting to "@
            + edit_action_text(a) + "."@,
        ToolCallError::Command(r) => crate::commands::rejection_message(r),
    }
}

impl ToolCallError {
    /// The text the user sees for this refusal.
    pub fn message(&self) -> (m: String)
        ensures
            m@ == tool_error_message(*self),
    {
        match self {
            ToolCallError::ReadRequired(a) => {
                let mut m = String::from_str(
                    "You must read the file with the read tool before attempting to ",
                );
                match a {
                    EditAction::Edit => m.append("edit it"),
                    EditAction::Overwrite => m.append("overwrite it"),
                }
                m.append(".");
                m
            },
            ToolCallError::Command(r) => r.message(),
        }
    }
}

/// Which prior read, if any, a tool call of this kind needs: patches need
/// one, and so does a write that overwrites.
pub open spec fn required_read(kind: ToolKind, overwrite: bool) -> Option<EditAction> {
    match kind {
        ToolKind::Patch | ToolKind::MultiPatch => Some(EditAction::Edit),
        ToolKind::Write => if overwrite {
            Some(EditAction::Overwrite)
        } else {
            None
        },
        _ => None,
    }
}

/// The paths recorded as read, by their text.
pub open spec fn path_texts(files: Seq<String>) -> Seq<Seq<char>> {
    files.map_values(|f: String| f@)
}

/// Whether the file at `raw` counts as read: either its normalized form or
/// the path exactly as given was recorded.
pub open spec fn was_read(files: Seq<Seq<char>>, cwd: Seq<char>, raw: Seq<char>) -> bool {
    files.contains(normalized_path(cwd, raw)) || files.contains(raw)
}

/// Where a `shell` tool call goes.
#[derive(Debug, Clone, PartialEq, Eq)]
pub enum ShellPlan {
    /// `shell_poll <id>` typed as a command: poll that job.
    Poll { job_id: u64 },
    /// `shell_wait <id>` typed as a command: wait for that job.
    Wait { job_id: u64 },
    /// `shell_kill <id>` typed as a command: kill that job.
    Kill { job_id: u64 },
    /// Start the command as a background job in `cwd`.
    Start { command: String, cwd: String },
}

/// A `ShellPlan` by its plain values.
pub enum ShellPlanView {
    Poll(u64),
    Wait(u64),
    Kill(u64),
    Start(Seq<char>, Seq<char>),
}

impl ShellPlan {
    /// This plan by its plain values.
    pub open spec fn plan_view(self) -> ShellPlanView {
        match self {
            ShellPlan::Poll { job_id } => ShellPlanView::Poll(job_id),
            ShellPlan::Wait { job_id } => ShellPlanView::Wait(job_id),
            ShellPlan::Kill { job_id } => ShellPlanView::Kill(job_id),
            ShellPlan::Start { command, cwd } => ShellPlanView::Start(command@, cwd@),
        }
    }
}

/// A planned result by its plain values.
pub open spec fn plan_result_view(r: Result<ShellPlan, CommandRejection>) -> Result<
    ShellPlanView,
    CommandRejection,
> {
    match r {
        Ok(p) => Ok(p.plan_view()),
        Err(e) => Err(e),
    }
}

/// The working directory a shell command runs in: the one given, else the
/// environment's, made absolute against the environment's.
pub open spec fn command_cwd(cwd: Option<Seq<char>>, env_cwd: Seq<char>) -> Seq<char> {
    match cwd {
        Some(c) => normalized_path(env_cwd, c),
        None => normalized_path(env_cwd, env_cwd),
    }
}

/// The route of a `shell` tool call: a typed `shell_poll`, `shell_wait` or
/// `shell_kill` with a job id goes straight to that tool (checked in that
/// order); anything else passes the guardrail and starts as a job.
pub open spec fn shell_route(cmd: Seq<char>, cwd: Option<Seq<char>>, env_cwd: Seq<char>) -> Result<
    ShellPlanView,
    CommandRejection,
> {
    let l = lowered(cmd);
    if tool_job_id("shell_poll"@, l) is Some {
        Ok(ShellPlanView::Poll(tool_job_id("shell_poll"@, l)->0))
    } else if tool_job_id("shell_wait"@, l) is Some {
        Ok(ShellPlanView::Wait(tool_job_id("shell_wait"@, l)->0))
    } else if tool_job_id("shell_kill"@, l) is Some {
        Ok(ShellPlanView::Kill(tool_job_id("shell_kill"@, l)->0))
    } else if guardrail_finding(cmd) is Some {
        Err(guardrail_finding(cmd)->0)
    } else {
        Ok(ShellPlanView::Start(cmd, command_cwd(cwd, env_cwd)))
    }
}

/// The route of a `shell_exec` tool call: the guardrail, then the working
/// directory to run in.
pub open spec fn exec_route(cmd: Seq<char>, cwd: Option<Seq<char>>, env_cwd: Seq<char>) -> Result<
    Seq<char>,
    CommandRejection,
> {
    if guardrail_finding(cmd) is Some {
        Err(guardrail_finding(cmd)->0)
    } else {
        Ok(command_cwd(cwd, env_cwd))
    }
}

impl<S> ToolExecutor<S> {
    /// The services the executor runs tool calls against.
    pub closed spec fn spec_services(&self) -> S {
        self.services
    }

    /// An executor over `services`.
    pub fn new(services: S) -> (r: Self)
        ensures
            r.spec_services() == services,
    {
        Self { services }
    }

    /// The services the executor runs tool calls against.
    pub fn services(&self) -> (r: &S)
        ensures
            *r == self.spec_services(),
    {
        &self.services
    }

    /// `path` made absolute against the working directory `cwd`.
    pub fn normalize_path(&self, cwd: &str, path: String) -> (r: String)
        ensures
            r@ == normalized_path(cwd@, path@),
    {
        normalize_path_in(cwd, path)
    }

    /// Refuses an edit of `raw_path` unless the file was read first, by its
    /// normalized path or by the path as given.
    pub fn require_prior_read(
        &self,
        files_accessed: &[String],
        cwd: &str,
        raw_path: &str,
        action: EditAction,
    ) -> (r: Result<(), ToolCallError>)
        ensures
            r is Ok <==> was_read(path_texts(files_accessed@), cwd@, raw_path@),
            r is Err ==> r == Err::<(), ToolCallError>(ToolCallError::ReadRequired(action)),
    {
        let target = normalize_path_in(cwd, raw_path.to_owned());
        let raw = raw_path.to_owned();
        if list_contains(files_accessed, &target) || list_contains(files_accessed, &raw) {
            Ok(())
        } else {
            Err(ToolCallError::ReadRequired(action))
        }
    }

    /// The read-before-edit rule applied to a tool call of kind `kind`
    /// touching `file_path`.
    pub fn check_prior_read(
        &self,
        kind: ToolKind,
        overwrite: bool,
        file_path: &str,
        files_accessed: &[String],
        cwd: &str,
    ) -> (r: Result<(), ToolCallError>)
        ensures
            match required_read(kind, overwrite) {
                None => r is Ok,
                Some(a) => {
                    &&& (r is Ok <==> was_read(path_texts(files_accessed@), cwd@, file_path@))
                    &&& (r is Err ==> r == Err::<(), ToolCallError>(ToolCallError::ReadRequired(a)))
                },
            },
    {
        match required_read_for(kind, overwrite) {
            None => Ok(()),
            Some(a) => self.require_prior_read(files_accessed, cwd, file_path, a),
        }
    }

    /// Checks a file tool call against the read-before-edit rule and gives
    /// the absolute path the call works on.
    pub fn plan_file_tool(
        &self,
        kind: ToolKind,
        overwrite: bool,
        file_path: &str,
        files_accessed: &[String],
        cwd: &str,
    ) -> (r: Result<String, ToolCallError>)
        ensures
            r is Ok <==> (required_read(kind, overwrite) is None || was_read(
                path_texts(files_accessed@),
                cwd@,
                file_path@,
            )),
            r matches Ok(p) ==> p@ == normalized_path(cwd@, file_path@),
            r matches Err(e) ==> required_read(kind, overwrite) matches Some(a) && e
                == ToolCallError::ReadRequired(a),
    {
        match self.check_prior_read(kind, overwrite, file_path, files_accessed, cwd) {
            Err(e) => Err(e),
            Ok(()) => Ok(normalize_path_in(cwd, file_path.to_owned())),
        }
    }

    /// Routes a `shell` tool call.
    pub fn plan_shell(&self, command: &str, cwd: Option<String>, env_cwd: &str) -> (r: Result<
        ShellPlan,
        CommandRejection,
    >)
        ensures
            plan_result_view(r) == shell_route(command@, opt_text(cwd), env_cwd@),
    {
        let (_, l) = lower_command(command);
        let ls = crate::text::string_from_chars(&l);
        let poll = parse_tool_as_command("shell_poll", ls.as_str());
        if let Some(job_id) = poll {
            return Ok(ShellPlan::Poll { job_id });
        }
        let wait = parse_tool_as_command("shell_wait", ls.as_str());
        if let Some(job_id) = wait {
            return Ok(ShellPlan::Wait { job_id });
        }
        let kill = parse_tool_as_command("shell_kill", ls.as_str());
        if let Some(job_id) = kill {
            return Ok(ShellPlan::Kill { job_id });
        }
        match validate_shell_guardrail(command) {
            Err(e) => Err(e),
            Ok(()) => {
                let dir = resolve_command_cwd(cwd, env_cwd);
                Ok(ShellPlan::Start { command: command.to_owned(), cwd: dir })
            },
        }
    }

    /// Routes a `shell_exec` tool call: the working directory to run in, or
    /// the guardrail's refusal.
    pub fn plan_shell_exec(&self, command: &str, cwd: Option<String>, env_cwd: &str) -> (r: Result<
        String,
        CommandRejection,
    >)
        ensures
            match r {
                Ok(d) => exec_route(command@, opt_text(cwd), env_cwd@) == Ok::<
                    Seq<char>,
                    CommandRejection,
                >(d@),
                Err(e) => exec_route(command@, opt_text(cwd), env_cwd@) == Err::<
                    Seq<char>,
                    CommandRejection,
                >(e),
            },
    {
        match validate_shell_guardrail(command) {
            Err(e) => Err(e),
            Ok(()) => Ok(resolve_command_cwd(cwd, env_cwd)),
        }
    }
}

/// `path` made absolute against the working directory `cwd`.
pub fn normalize_path_in(cwd: &str, path: String) -> (r: String)
    ensures
        r@ == normalized_path(cwd@, path@),
{
    if is_absolute(path.as_str()) {
        path
    } else {
        join(cwd, path.as_str())
    }
}

/// The working directory a shell command runs in.
pub fn resolve_command_cwd(cwd: Option<String>, env_cwd: &str) -> (r: String)
    ensures
        r@ == command_cwd(opt_text(cwd), env_cwd@),
{
    let dir = match cwd {
        Some(c) => c,
        None => env_cwd.to_owned(),
    };
    normalize_path_in(env_cwd, dir)
}

/// Which prior read a tool call of this kind needs.
pub fn required_read_for(kind: ToolKind, overwrite: bool) -> (r: Option<EditAction>)
    ensures
        r == required_read(kind, overwrite),
{
    match kind {
        ToolKind::Patch | ToolKind::MultiPatch => Some(EditAction::Edit),
        ToolKind::Write => if overwrite {
            Some(EditAction::Overwrite)
        } else {
            None
        },
        _ => None,
    }
}

/// Whether `files` holds a string equal to `s`.
pub fn list_contains(files: &[String], s: &String) -> (r: bool)
    ensures
        r == path_texts(files@).contains(s@),
{
    let mut i: usize = 0;
    while i < files.len()
        invariant
            i <= files@.len(),
            forall|k: int| 0 <= k < i ==> files@[k]@ != s@,
        decreases files@.len() - i,
    {
        if files[i] == *s {
            assert(path_texts(files@)[i as int] == s@);
            return true;
        }
        i = i + 1;
    }
    assert forall|k: int| 0 <= k < path_texts(files@).len() implies path_texts(files@)[k] != s@ by {
        assert(files@[k]@ != s@);
    }
    false
}

/// The number of `'\n'` characters in `s`.
pub open spec fn newline_count(s: Seq<char>) -> nat
    decreases s.len(),
{
    if s.len() == 0 {
        0
    } else {
        newline_count(s.drop_last()) + if s.last() == '\n' {
            1nat
        } else {
            0nat
        }
    }
}

/// The number of lines in `s` as `str::lines` counts them: one per line
/// break, plus a last line that has no break of its own.
pub open spec fn line_count(s: Seq<char>) -> nat {
    newline_count(s) + if s.len() > 0 && s.last() != '\n' {
        1nat
    } else {
        0nat
    }
}

proof fn lemma_newline_count_bound(s: Seq<char>)
    ensures
        newline_count(s) <= s.len(),
    decreases s.len(),
{
    if s.len() > 0 {
        lemma_newline_count_bound(s.drop_last());
    }
}

/// The number of lines in `s` (`s.lines().count()`).
pub fn count_lines(s: &str) -> (n: usize)
    ensures
        n == line_count(s@),
{
    let chars = crate::text::to_chars(s);
    let mut count: usize = 0;
    let mut i: usize = 0;
    while i < chars.len()
        invariant
            i <= chars@.len(),
            chars@ == s@,
            count == newline_count(chars@.take(i as int)),
            count <= i,
        decreases chars@.len() - i,
    {
        assert(chars@.take(i + 1).drop_last() =~= chars@.take(i as int));
        if chars[i] == '\n' {
            count = count + 1;
        }
        i = i + 1;
    }
    assert(chars@.take(chars@.len() as int) =~= chars@);
    if chars.len() > 0 && chars[chars.len() - 1] != '\n' {
        proof {
            lemma_newline_count_bound(chars@.drop_last());
        }
        count = count + 1;
    }
    count
}

/// Which output stream a dump file holds.
#[derive(Debug, Clone, Copy, PartialEq, Eq, Structural)]
pub enum DumpTarget {
    Stdout,
    Stderr,
}

/// A temporary file the executor writes the full text of an output to.
#[derive(Debug, Clone, PartialEq, Eq)]
pub struct DumpRequest {
    /// The stream whose text goes into the file.
    pub target: DumpTarget,
    /// The start of the file's name.
    pub prefix: String,
    /// The end of the file's name.
    pub suffix: String,
}

/// The output of a finished tool call, as far as dumping is concerned.
pub enum OperationOutput {
    /// A fetched page.
    NetFetch { content: String },
    /// The captured output of a shell command (`shell_exec`, `shell_poll`
    /// or `shell_wait`).
    ShellOutput { stdout: String, stderr: String },
    /// Any other output, which is never dumped.
    Other,
}

/// How long an output may be before the full text goes to a file.
#[derive(Debug, Clone, Copy)]
pub struct TruncationLimits {
    /// Longest fetched page, in bytes, shown in full.
    pub max_fetch_chars: usize,
    /// Lines shown from the start of a long shell output.
    pub max_stdout_prefix_lines: usize,
    /// Lines shown from the end of a long shell output.
    pub max_stdout_suffix_lines: usize,
}

/// The length in bytes of the UTF-8 text `s` (`str::len`).
pub open spec fn byte_len(s: Seq<char>) -> usize {
    vstd::utf8::encode_utf8(s).len() as usize
}

/// A dump request by its plain values.
pub open spec fn dump_view(d: DumpRequest) -> (DumpTarget, Seq<char>, Seq<char>) {
    (d.target, d.prefix@, d.suffix@)
}

/// The files a finished operation is dumped to: a fetched page longer (in
/// bytes) than the limit goes to one file; a shell output goes to one file
/// per stream that has more lines than the shown prefix and suffix together.
pub open spec fn dump_plan_spec(op: OperationOutput, limits: TruncationLimits) -> Seq<
    (DumpTarget, Seq<char>, Seq<char>),
> {
    match op {
        OperationOutput::NetFetch { content } => if byte_len(content@) > limits.max_fetch_chars {
            seq![(DumpTarget::Stdout, "forge_fetch_"@, ".txt"@)]
        } else {
            seq![]
        },
        OperationOutput::ShellOutput { stdout, stderr } => {
            let keep = limits.max_stdout_prefix_lines + limits.max_stdout_suffix_lines;
            let out: Seq<(DumpTarget, Seq<char>, Seq<char>)> = if line_count(stdout@) > keep {
                seq![(DumpTarget::Stdout, "forge_shell_stdout_"@, ".txt"@)]
            } else {
                seq![]
            };
            let err: Seq<(DumpTarget, Seq<char>, Seq<char>)> = if line_count(stderr@) > keep {
                seq![(DumpTarget::Stderr, "forge_shell_stderr_"@, ".txt"@)]
            } else {
                seq![]
            };
            out + err
        },
        OperationOutput::Other => seq![],
    }
}

/// The files the full text of `op` must be written to.
pub fn dump_plan(op: &OperationOutput, limits: &TruncationLimits) -> (r: Vec<DumpRequest>)
    requires
        limits.max_stdout_prefix_lines + limits.max_stdout_suffix_lines <= usize::MAX,
    ensures
        r@.map_values(|d: DumpRequest| dump_view(d)) == dump_plan_spec(*op, *limits),
{
    let mut r: Vec<DumpRequest> = Vec::new();
    match op {
        OperationOutput::NetFetch { content } => {
            if content.as_str().len() > limits.max_fetch_chars {
                r.push(
                    DumpRequest {
                        target: DumpTarget::Stdout,
                        prefix: String::from_str("forge_fetch_"),
                        suffix: String::from_str(".txt"),
                    },
                );
                assert(r@.map_values(|d: DumpRequest| dump_view(d)) =~= seq![
                    (DumpTarget::Stdout, "forge_fetch_"@, ".txt"@),
                ]);
            } else {
                assert(r@.map_values(|d: DumpRequest| dump_view(d)) =~= seq![]);
            }
        },
        OperationOutput::ShellOutput { stdout, stderr } => {
            let keep = limits.max_stdout_prefix_lines + limits.max_stdout_suffix_lines;
            if count_lines(stdout.as_str()) > keep {
                r.push(
                    DumpRequest {
                        target: DumpTarget::Stdout,
                        prefix: String::from_str("forge_shell_stdout_"),
                        suffix: String::from_str(".txt"),
                    },
                );
            }
            let ghost first = r@;
            if count_lines(stderr.as_str()) > keep {
                r.push(
                    DumpRequest {
                        target: DumpTarget::Stderr,
                        prefix: String::from_str("forge_shell_stderr_"),
                        suffix: String::from_str(".txt"),
                    },
                );
            }
            let ghost out_part: Seq<(DumpTarget, Seq<char>, Seq<char>)> = if line_count(stdout@)
                > keep {
                seq![(DumpTarget::Stdout, "forge_shell_stdout_"@, ".txt"@)]
            } else {
                seq![]
            };
            let ghost err_part: Seq<(DumpTarget, Seq<char>, Seq<char>)> = if line_count(stderr@)
                > keep {
                seq![(DumpTarget::Stderr, "forge_shell_stderr_"@, ".txt"@)]
            } else {
                seq![]
            };
            assert(first.map_values(|d: DumpRequest| dump_view(d)) =~= out_part);
            assert(r@.map_values(|d: DumpRequest| dump_view(d)) =~= out_part + err_part);
        },
        OperationOutput::Other => {
            assert(r@.map_values(|d: DumpRequest| dump_view(d)) =~= seq![]);
        },
    }
    assert(r@.map_values(|d: DumpRequest| dump_view(d)) =~= dump_plan_spec(*op, *limits));
    r
}

/// Against an absolute working directory, every path normalizes to an
/// absolute path, and normalizing again changes nothing.
pub proof fn lemma_normalized_path_is_absolute(cwd: Seq<char>, p: Seq<char>)
    requires
        is_absolute_path(cwd),
    ensures
        is_absolute_path(normalized_path(cwd, p)),
        normalized_path(cwd, normalized_path(cwd, p)) == normalized_path(cwd, p),
{
    if !is_absolute_path(p) {
        let r = normalized_path(cwd, p);
        if cwd.last() != '/' {
            assert(r == cwd + seq!['/'] + p);
            assert(r[0] == cwd[0]);
        } else {
            assert(r == cwd + p);
            assert(r[0] == cwd[0]);
        }
    }
}

/// The options that are present, in order.
pub open spec fn present_options(opts: Seq<Option<String>>) -> Seq<Seq<char>>
    decreases opts.len(),
{
    if opts.len() == 0 {
        seq![]
    } else {
        let rest = present_options(opts.drop_last());
        match opts.last() {
            Some(o) => rest.push(o@),
            None => rest,
        }
    }
}

/// The answer options of a follow-up question: the ones given, in order.
pub fn followup_options(
    option1: Option<String>,
    option2: Option<String>,
    option3: Option<String>,
    option4: Option<String>,
    option5: Option<String>,
) -> (r: Vec<String>)
    ensures
        r@.map_values(|s: String| s@) == present_options(
            seq![option1, option2, option3, option4, option5],
        ),
{
    let ghost all = seq![option1, option2, option3, option4, option5];
    let mut opts: Vec<Option<String>> = Vec::new();
    opts.push(option1);
    opts.push(option2);
    opts.push(option3);
    opts.push(option4);
    opts.push(option5);
    assert(opts@ =~= all);
    let mut r: Vec<String> = Vec::new();
    let mut i: usize = 0;
    while i < opts.len()
        invariant
            i <= opts@.len(),
            r@.map_values(|s: String| s@) == present_options(opts@.take(i as int)),
        decreases opts@.len() - i,
    {
        assert(opts@.take(i + 1).drop_last() =~= opts@.take(i as int));
        let ghost prev = r@;
        match &opts[i] {
            Some(o) => {
                r.push(o.clone());
                assert(r@.map_values(|s: String| s@) =~= prev.map_values(|s: String| s@).push(o@));
            },
            None => {},
        }
        i = i + 1;
    }
    assert(opts@.take(opts@.len() as int) =~= opts@);
    r
}

/// A `shell` call that starts a job runs a command the guardrail accepts,
/// exactly as given; against an absolute environment directory it runs
/// in an absolute directory.
pub proof fn lemma_started_commands_pass_the_guardrail(
    cmd: Seq<char>,
    cwd: Option<Seq<char>>,
    env_cwd: Seq<char>,
)
    requires
        shell_route(cmd, cwd, env_cwd) matches Ok(ShellPlanView::Start(_, _)),
    ensures
        guardrail_finding(cmd) is None,
        shell_route(cmd, cwd, env_cwd) matches Ok(ShellPlanView::Start(c, d)) && c == cmd && (
        is_absolute_path(env_cwd) ==> is_absolute_path(d)),
{
    if is_absolute_path(env_cwd) {
        match cwd {
            Some(c) => lemma_normalized_path_is_absolute(env_cwd, c),
            None => lemma_normalized_path_is_absolute(env_cwd, env_cwd),
        }
    }
}

/// The two streams of a shell output are dumped independently: the
/// stdout file is requested exactly when stdout has more lines than the
/// shown prefix and suffix together, the stderr file exactly when stderr
/// has, whatever the other stream holds. Nothing else is requested, and
/// the stdout request comes first.
pub proof fn lemma_shell_streams_dumped_independently(
    stdout: String,
    stderr: String,
    limits: TruncationLimits,
)
    ensures
        ({
            let p = dump_plan_spec(OperationOutput::ShellOutput { stdout, stderr }, limits);
            let keep = limits.max_stdout_prefix_lines + limits.max_stdout_suffix_lines;
            let out = (DumpTarget::Stdout, "forge_shell_stdout_"@, ".txt"@);
            let err = (DumpTarget::Stderr, "forge_shell_stderr_"@, ".txt"@);
            &&& p.contains(out) <==> line_count(stdout@) > keep
            &&& p.contains(err) <==> line_count(stderr@) > keep
            &&& forall|k: int| 0 <= k < p.len() ==> p[k] == out || p[k] == err
            &&& p.len() == (if line_count(stdout@) > keep {
                1int
            } else {
                0int
            }) + (if line_count(stderr@) > keep {
                1int
            } else {
                0int
            })
            &&& p.len() == 2 ==> p[0] == out && p[1] == err
        }),
{
    let p = dump_plan_spec(OperationOutput::ShellOutput { stdout, stderr }, limits);
    let keep = limits.max_stdout_prefix_lines + limits.max_stdout_suffix_lines;
    let out = (DumpTarget::Stdout, "forge_shell_stdout_"@, ".txt"@);
    let err = (DumpTarget::Stderr, "forge_shell_stderr_"@, ".txt"@);
    if line_count(stdout@) > keep {
        assert(p[0] == out);
    }
    if line_count(stderr@) > keep {
        assert(p[p.len() - 1] == err);
    }
    if p.contains(out) {
        let k = choose|k: int| 0 <= k < p.len() && p[k] == out;
        assert(p[k].0 == DumpTarget::Stdout);
    }
    if p.contains(err) {
        let k = choose|k: int| 0 <= k < p.len() && p[k] == err;
        assert(p[k].0 == DumpTarget::Stderr);
    }
}

/// A fetched page is dumped to one `forge_fetch_` file exactly when it is
/// longer, in bytes, than the limit; other outputs are never dumped.
pub proof fn lemma_fetch_dumped_when_too_long(content: String, limits: TruncationLimits)
    ensures
        dump_plan_spec(OperationOutput::NetFetch { content }, limits).len() == if byte_len(
            content@,
        ) > limits.max_fetch_chars {
            1int
        } else {
            0int
        },
        byte_len(content@) > limits.max_fetch_chars ==> dump_plan_spec(
            OperationOutput::NetFetch { content },
            limits,
        )[0] == (DumpTarget::Stdout, "forge_fetch_"@, ".txt"@),
        dump_plan_spec(OperationOutput::Other, limits).len() == 0,
{
}

/// No text has lines: `line_count` of the empty text is 0.
pub proof fn lemma_no_lines_in_empty_text()
    ensures
        line_count(Seq::<char>::empty()) == 0,
{
}

/// One line, with or without its line break, counts once: a text without
/// `'\n'` counts one line if it is not empty, and adding a line break at its
/// end does not change that (a lone `"\n"` is one empty line).
pub proof fn lemma_one_line(s: Seq<char>)
    requires
        !s.contains('\n'),
    ensures
        s.len() > 0 ==> line_count(s) == 1,
        line_count(s.push('\n')) == 1,
{
    lemma_no_newlines(s);
    assert(s.push('\n').drop_last() =~= s);
}

proof fn lemma_no_newlines(s: Seq<char>)
    requires
        !s.contains('\n'),
    ensures
        newline_count(s) == 0,
    decreases s.len(),
{
    if s.len() > 0 {
        assert(s.drop_last().len() < s.len());
        assert(!s.drop_last().contains('\n')) by {
            if s.drop_last().contains('\n') {
                let k = choose|k: int| 0 <= k < s.drop_last().len() && s.drop_last()[k] == '\n';
                assert(s[k] == '\n');
            }
        }
        lemma_no_newlines(s.drop_last());
        assert(s[s.len() - 1] == s.last());
    }
}

proof fn lemma_newline_count_concat(a: Seq<char>, b: Seq<char>)
    ensures
        newline_count(a + b) == newline_count(a) + newline_count(b),
    decreases b.len(),
{
    if b.len() == 0 {
        assert(a + b =~= a);
    } else {
        assert((a + b).drop_last() =~= a + b.drop_last());
        assert((a + b).last() == b.last());
        lemma_newline_count_concat(a, b.drop_last());
    }
}

/// Lines add up: a text that is empty or ends in a line break, followed
/// by another text, has the lines of both.
pub proof fn lemma_lines_add_up(a: Seq<char>, b: Seq<char>)
    requires
        a.len() == 0 || a.last() == '\n',
    ensures
        line_count(a + b) == line_count(a) + line_count(b),
{
    lemma_newline_count_concat(a, b);
    if b.len() == 0 {
        assert(a + b =~= a);
    } else {
        assert((a + b).last() == b.last());
    }
}

/// Only edits of existing content need a prior read: a patch or a
/// multi-patch always does (as an edit), a write does exactly when it
/// overwrites (as an overwrite), and every other tool, removal included,
/// never does.
pub proof fn lemma_only_edits_need_a_read(kind: ToolKind, overwrite: bool)
    ensures
        (kind == ToolKind::Patch || kind == ToolKind::MultiPatch) ==> required_read(kind, overwrite)
            == Some(EditAction::Edit),
        kind == ToolKind::Write ==> (required_read(kind, overwrite) is Some <==> overwrite),
        kind == ToolKind::Write && overwrite ==> required_read(kind, overwrite) == Some(
            EditAction::Overwrite,
        ),
        !(kind == ToolKind::Patch || kind == ToolKind::MultiPatch || kind == ToolKind::Write)
            ==> required_read(kind, overwrite) is None,
{
}

/// A file counts as read when its normalized path or the path exactly as
/// given was recorded, and not otherwise.
pub proof fn lemma_read_means_recorded(files: Seq<Seq<char>>, cwd: Seq<char>, raw: Seq<char>)
    ensures
        files.contains(normalized_path(cwd, raw)) ==> was_read(files, cwd, raw),
        files.contains(raw) ==> was_read(files, cwd, raw),
        !files.contains(normalized_path(cwd, raw)) && !files.contains(raw) ==> !was_read(
            files,
            cwd,
            raw,
        ),
{
}


} // verus!
