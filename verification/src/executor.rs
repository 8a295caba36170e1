//! How a shell command is set up and how its captured output is reported.
use vstd::prelude::*;
use crate::shell::{lossy_text, utf8_lossy, CommandOutput};

verus! {

/// One change to the environment a command runs in.
#[derive(Debug, Clone)]
pub enum EnvOp {
    /// Set a variable.
    Assign(String, String),
    /// Remove a variable.
    Remove(String),
}

/// An environment change by its plain values.
pub enum EnvOpView {
    Assign(Seq<char>, Seq<char>),
    Remove(Seq<char>),
}

/// An environment change by its plain values.
pub open spec fn env_op_view(op: EnvOp) -> EnvOpView {
    match op {
        EnvOp::Assign(k, v) => EnvOpView::Assign(k@, v@),
        EnvOp::Remove(k) => EnvOpView::Remove(k@),
    }
}

/// Everything needed to spawn a shell command.
pub struct CommandPlan {
    /// The shell to run.
    pub program: String,
    /// Its arguments: the flag that makes it run a command string, then
    /// the command.
    pub args: Vec<String>,
    /// Changes to the inherited environment, applied in order.
    pub env_ops: Vec<EnvOp>,
    /// Whether the command reads the terminal's input (foreground runs) or
    /// none at all (background jobs).
    pub inherit_stdin: bool,
}

/// The settings that make common tools keep their colors when their
/// output is captured.
pub open spec fn color_env() -> Seq<EnvOpView> {
    seq![
        EnvOpView::Assign("CLICOLOR_FORCE"@, "1"@),
        EnvOpView::Assign("FORCE_COLOR"@, "true"@),
        EnvOpView::Remove("NO_COLOR"@),
        EnvOpView::Assign("SBT_OPTS"@, "-Dsbt.color=always"@),
        EnvOpView::Assign("JAVA_OPTS"@, "-Dsbt.color=always"@),
        EnvOpView::Assign("GIT_CONFIG_PARAMETERS"@, "'color.ui=always'"@),
        EnvOpView::Assign("GREP_OPTIONS"@, "--color=always"@),
    ]
}

/// The requested variables that are set in the caller's environment, in
/// the order requested; the others are skipped.
pub open spec fn forwarded_env(vars: Seq<(String, Option<String>)>) -> Seq<EnvOpView>
    decreases vars.len(),
{
    if vars.len() == 0 {
        seq![]
    } else {
        let rest = forwarded_env(vars.drop_last());
        match vars.last().1 {
            Some(v) => rest.push(EnvOpView::Assign(vars.last().0@, v@)),
            None => rest,
        }
    }
}

/// The flag that makes the shell run a command string.
pub open spec fn command_flag(is_windows: bool) -> Seq<char> {
    if is_windows {
        "/C"@
    } else {
        "-c"@
    }
}

fn push_set(ops: &mut Vec<EnvOp>, k: &str, v: &str)
    ensures
        final(ops)@.map_values(|o: EnvOp| env_op_view(o)) == old(ops)@.map_values(
            |o: EnvOp| env_op_view(o),
        ).push(EnvOpView::Assign(k@, v@)),
{
    let ghost before = ops@;
    ops.push(EnvOp::Assign(k.to_owned(), v.to_owned()));
    assert(ops@.map_values(|o: EnvOp| env_op_view(o)) =~= before.map_values(
        |o: EnvOp| env_op_view(o),
    ).push(EnvOpView::Assign(k@, v@)));
}

/// The spawn plan for `command` run by `shell`. `vars` are the variables
/// the caller asked to forward, each with its value in the caller's
/// environment if it has one.
pub fn plan_command(
    shell: &str,
    command: &str,
    is_windows: bool,
    inherit_stdin: bool,
    vars: Vec<(String, Option<String>)>,
) -> (p: CommandPlan)
    ensures
        p.program@ == shell@,
        p.args@.len() == 2,
        p.args@[0]@ == command_flag(is_windows),
        p.args@[1]@ == command@,
        p.env_ops@.map_values(|o: EnvOp| env_op_view(o)) == color_env() + forwarded_env(vars@),
        p.inherit_stdin == inherit_stdin,
{
    let mut ops: Vec<EnvOp> = Vec::new();
    push_set(&mut ops, "CLICOLOR_FORCE", "1");
    push_set(&mut ops, "FORCE_COLOR", "true");
    let ghost before = ops@;
    ops.push(EnvOp::Remove("NO_COLOR".to_owned()));
    assert(ops@.map_values(|o: EnvOp| env_op_view(o)) =~= before.map_values(
        |o: EnvOp| env_op_view(o),
    ).push(EnvOpView::Remove("NO_COLOR"@)));
    push_set(&mut ops, "SBT_OPTS", "-Dsbt.color=always");
    push_set(&mut ops, "JAVA_OPTS", "-Dsbt.color=always");
    push_set(&mut ops, "GIT_CONFIG_PARAMETERS", "'color.ui=always'");
    push_set(&mut ops, "GREP_OPTIONS", "--color=always");
    assert(ops@.map_values(|o: EnvOp| env_op_view(o)) =~= color_env());
    let mut i: usize = 0;
    while i < vars.len()
        invariant
            i <= vars@.len(),
            ops@.map_values(|o: EnvOp| env_op_view(o)) == color_env() + forwarded_env(
                vars@.take(i as int),
            ),
        decreases vars@.len() - i,
    {
        assert(vars@.take(i + 1).drop_last() =~= vars@.take(i as int));
        let ghost prev = ops@;
        match &vars[i].1 {
            Some(v) => {
                ops.push(EnvOp::Assign(vars[i].0.clone(), v.clone()));
                assert(ops@.map_values(|o: EnvOp| env_op_view(o)) =~= prev.map_values(
                    |o: EnvOp| env_op_view(o),
                ).push(EnvOpView::Assign(vars@[i as int].0@, v@)));
            },
            None => {},
        }
        i = i + 1;
    }
    assert(vars@.take(vars@.len() as int) =~= vars@);
    let flag = if is_windows {
        "/C"
    } else {
        "-c"
    };
    let mut args: Vec<String> = Vec::new();
    args.push(flag.to_owned());
    args.push(command.to_owned());
    CommandPlan { program: shell.to_owned(), args, env_ops: ops, inherit_stdin }
}

/// The result of a finished command, its output read as text.
pub fn command_output(command: String, stdout: &[u8], stderr: &[u8], exit_code: Option<i32>) -> (r:
    CommandOutput)
    ensures
        r.command == command,
        r.stdout@ == lossy_text(stdout@),
        r.stderr@ == lossy_text(stderr@),
        r.exit_code == exit_code,
{
    CommandOutput {
        stdout: utf8_lossy(stdout),
        stderr: utf8_lossy(stderr),
        exit_code,
        command,
    }
}

/// Whether the terminal needs a line break after a command's echoed
/// output: it wrote something and did not end with a line break.
pub fn needs_trailing_newline(stdout: &[u8]) -> (r: bool)
    ensures
        r == (stdout@.len() > 0 && stdout@.last() != 10u8),
{
    let n = stdout.len();
    n > 0 && stdout[n - 1] != 10u8
}

/// A writer that sends a command's output to one of the console's two
/// streams.
pub struct OutputPrinterWriter<P> {
    printer: P,
    is_stdout: bool,
}

impl<P> OutputPrinterWriter<P> {
    /// The console the writer sends to.
    pub closed spec fn spec_printer(&self) -> P {
        self.printer
    }

    /// Whether the writer sends to standard output (else standard error).
    pub closed spec fn spec_is_stdout(&self) -> bool {
        self.is_stdout
    }

    /// A writer to the console's standard output.
    pub fn stdout(printer: P) -> (w: Self)
        ensures
            w.spec_printer() == printer,
            w.spec_is_stdout(),
    {
        Self { printer, is_stdout: true }
    }

    /// A writer to the console's standard error.
    pub fn stderr(printer: P) -> (w: Self)
        ensures
            w.spec_printer() == printer,
            !w.spec_is_stdout(),
    {
        Self { printer, is_stdout: false }
    }

    /// Whether the writer sends to standard output (else standard error).
    pub fn is_stdout(&self) -> (r: bool)
        ensures
            r == self.spec_is_stdout(),
    {
        self.is_stdout
    }

    /// The console the writer sends to.
    pub fn printer(&self) -> (r: &P)
        ensures
            *r == self.spec_printer(),
    {
        &self.printer
    }
}

} // verus!
