//! The shell service: checks commands before they run and shapes what the
//! command layer reports back to the tools.
use vstd::prelude::*;
use crate::commands::{command_finding, finding_result, CommandRejection};
use crate::shell::{utf8_lossy, CommandJobSnapshot, CommandKill, CommandOutput, CommandStart};

verus! {

/// The parts of the environment the library reads.
#[derive(Debug, Clone)]
pub struct Environment {
    /// The working directory tools resolve relative paths against.
    pub cwd: String,
    /// The shell commands run in.
    pub shell: String,
}

/// Access to the current environment.
pub trait EnvironmentInfra {
    /// The environment as it is now.
    fn get_environment(&self) -> Environment;
}

/// The bytes left after `strip_ansi_escapes::strip` removes the escape
/// sequences (and other control bytes but line feeds) from `bytes`.
pub uninterp spec fn ansi_stripped(bytes: Seq<u8>) -> Seq<u8>;

/// A control character that the stripping drops: C0 (`U+0000` to
/// `U+001F`) or C1 (`U+0080` to `U+009F`), the line feed excepted.
pub open spec fn dropped_control(c: char) -> bool {
    c != '\n' && ((c as u32) < 0x20 || (0x80 <= (c as u32) && (c as u32) < 0xa0))
}

/// What the stripping keeps of a text that holds no escape character:
/// every character but the dropped control characters, in order.
pub open spec fn plain_kept(s: Seq<char>) -> Seq<char> {
    s.filter(|c: char| !dropped_control(c))
}

/// Removes ANSI escape sequences from the UTF-8 bytes of `text`
/// (`strip_ansi_escapes::strip`). The result is named by `ansi_stripped`;
/// it is valid UTF-8, since the crate writes out only whole characters and
/// line feeds. On a text without an escape character (`U+001B`) the
/// parser never leaves its ground state, so each character is printed
/// as it is, or dropped when it is a C0 or C1 control other than the line
/// feed; that case is stated exactly.
#[verifier::external_body]
fn strip_escapes(text: &str) -> (r: Vec<u8>)
    ensures
        r@ == ansi_stripped(vstd::utf8::encode_utf8(text@)),
        vstd::utf8::valid_utf8(r@),
        !text@.contains('\u{1b}') ==> r@ == vstd::utf8::encode_utf8(plain_kept(text@)),
{
    strip_ansi_escapes::strip(text.as_bytes())
}

/// `s` with its ANSI escape sequences removed.
pub open spec fn strip_ansi_text(s: Seq<char>) -> Seq<char> {
    vstd::utf8::decode_utf8(ansi_stripped(vstd::utf8::encode_utf8(s)))
}

/// Strips out the ANSI codes from `content`. A text without escape
/// characters keeps all its characters but the control characters other
/// than line feeds.
pub fn strip_ansi(content: String) -> (r: String)
    ensures
        r@ == strip_ansi_text(content@),
        !content@.contains('\u{1b}') ==> r@ == plain_kept(content@),
{
    let bytes = strip_escapes(content.as_str());
    proof {
        vstd::utf8::encode_utf8_decode_utf8(plain_kept(content@));
    }
    utf8_lossy(bytes.as_slice())
}

/// A text as shown to the model: stripped of escape codes unless they are
/// to be kept.
pub open spec fn shown_text(s: Seq<char>, keep_ansi: bool) -> Seq<char> {
    if keep_ansi {
        s
    } else {
        strip_ansi_text(s)
    }
}

/// The output of a command run to completion.
#[derive(Debug, Clone)]
pub struct ShellOutput {
    pub output: CommandOutput,
    pub shell: String,
    pub description: Option<String>,
}

/// The reply to starting a background job.
#[derive(Debug, Clone)]
pub struct ShellStartOutput {
    pub output: CommandStart,
    pub shell: String,
    pub description: Option<String>,
}

/// The reply to polling a background job.
#[derive(Debug, Clone)]
pub struct ShellPollOutput {
    pub output: CommandJobSnapshot,
    pub shell: String,
}

/// The reply to waiting for a background job.
#[derive(Debug, Clone)]
pub struct ShellWaitOutput {
    pub output: CommandJobSnapshot,
    pub shell: String,
}

/// The reply to killing a background job.
#[derive(Debug, Clone)]
pub struct ShellKillOutput {
    pub output: CommandKill,
    pub shell: String,
}

/// Command output as shown: both streams passed through `shown_text`, the
/// rest unchanged.
pub open spec fn shown_output(shown: CommandOutput, raw: CommandOutput, keep_ansi: bool) -> bool {
    &&& shown.command == raw.command
    &&& shown.exit_code == raw.exit_code
    &&& shown.stdout@ == shown_text(raw.stdout@, keep_ansi)
    &&& shown.stderr@ == shown_text(raw.stderr@, keep_ansi)
}

/// Runs shell commands in the environment's shell, after checking them.
pub struct ForgeShell<I> {
    env: Environment,
    infra: I,
}

impl<I> ForgeShell<I> {
    /// The environment captured when the service was made.
    pub closed spec fn spec_env(&self) -> Environment {
        self.env
    }

    /// The command layer the service runs commands through.
    pub closed spec fn spec_infra(&self) -> I {
        self.infra
    }

    /// The command layer the service runs commands through.
    pub fn infra(&self) -> (r: &I)
        ensures
            *r == self.spec_infra(),
    {
        &self.infra
    }

    /// The shell commands run in.
    pub fn shell(&self) -> (r: &String)
        ensures
            *r == self.spec_env().shell,
    {
        &self.env.shell
    }

    /// Refuses blank commands and the ways of babysitting a background job.
    pub fn validate_command(command: &str) -> (r: Result<(), CommandRejection>)
        ensures
            r == finding_result(command_finding(command@)),
    {
        crate::commands::validate_command(command)
    }

    fn shown(output: CommandOutput, keep_ansi: bool) -> (r: CommandOutput)
        ensures
            shown_output(r, output, keep_ansi),
    {
        if keep_ansi {
            output
        } else {
            CommandOutput {
                command: output.command,
                stdout: strip_ansi(output.stdout),
                stderr: strip_ansi(output.stderr),
                exit_code: output.exit_code,
            }
        }
    }

    /// The reply to a command run to completion: its output as shown, the
    /// shell, and the description given with the call.
    pub fn execute_output(
        &self,
        output: CommandOutput,
        keep_ansi: bool,
        description: Option<String>,
    ) -> (r: ShellOutput)
        ensures
            shown_output(r.output, output, keep_ansi),
            r.shell == self.spec_env().shell,
            r.description == description,
    {
        ShellOutput {
            output: Self::shown(output, keep_ansi),
            shell: self.env.shell.clone(),
            description,
        }
    }

    /// The reply to starting a job.
    pub fn start_output(&self, output: CommandStart, description: Option<String>) -> (r:
        ShellStartOutput)
        ensures
            r.output == output,
            r.shell == self.spec_env().shell,
            r.description == description,
    {
        ShellStartOutput { output, shell: self.env.shell.clone(), description }
    }

    /// The reply to polling a job: its output as shown.
    pub fn poll_output(&self, output: CommandJobSnapshot, keep_ansi: bool) -> (r: ShellPollOutput)
        ensures
            r.output.job_id == output.job_id,
            r.output.running == output.running,
            shown_output(r.output.output, output.output, keep_ansi),
            r.shell == self.spec_env().shell,
    {
        let CommandJobSnapshot { job_id, output, running } = output;
        ShellPollOutput {
            output: CommandJobSnapshot { job_id, output: Self::shown(output, keep_ansi), running },
            shell: self.env.shell.clone(),
        }
    }

    /// The reply to waiting for a job: its output as shown.
    pub fn wait_output(&self, output: CommandJobSnapshot, keep_ansi: bool) -> (r: ShellWaitOutput)
        ensures
            r.output.job_id == output.job_id,
            r.output.running == output.running,
            shown_output(r.output.output, output.output, keep_ansi),
            r.shell == self.spec_env().shell,
    {
        let CommandJobSnapshot { job_id, output, running } = output;
        ShellWaitOutput {
            output: CommandJobSnapshot { job_id, output: Self::shown(output, keep_ansi), running },
            shell: self.env.shell.clone(),
        }
    }

    /// The reply to killing a job.
    pub fn kill_output(&self, output: CommandKill) -> (r: ShellKillOutput)
        ensures
            r.output == output,
            r.shell == self.spec_env().shell,
    {
        ShellKillOutput { output, shell: self.env.shell.clone() }
    }
}

impl<I> ForgeShell<I> {
    /// A shell service over `infra` that runs commands in `env`.
    pub fn with_environment(env: Environment, infra: I) -> (r: Self)
        ensures
            r.spec_env() == env,
            r.spec_infra() == infra,
    {
        Self { env, infra }
    }
}

impl<I: EnvironmentInfra> ForgeShell<I> {
    /// A shell service over `infra`, with the environment it reports now.
    pub fn new(infra: I) -> (r: Self)
        ensures
            r.spec_infra() == infra,
    {
        let env = infra.get_environment();
        Self::with_environment(env, infra)
    }
}

} // verus!
