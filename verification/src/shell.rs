//! The results of shell commands and jobs, as the tools hand them around.
use vstd::prelude::*;

verus! {

/// The bytes a process wrote, read as text with invalid UTF-8 sequences
/// replaced (`String::from_utf8_lossy`).
pub uninterp spec fn lossy_text(bytes: Seq<u8>) -> Seq<char>;

/// Reads bytes as text (`String::from_utf8_lossy(..).into_owned()`): the
/// result is named by `lossy_text`; bytes that are valid UTF-8 read as the
/// characters they encode, as the function's documentation states.
#[verifier::external_body]
pub fn utf8_lossy(bytes: &[u8]) -> (s: String)
    ensures
        s@ == lossy_text(bytes@),
        vstd::utf8::valid_utf8(bytes@) ==> s@ == vstd::utf8::decode_utf8(bytes@),
{
    String::from_utf8_lossy(bytes).into_owned()
}

/// Output from a command execution.
#[derive(Debug, Clone)]
pub struct CommandOutput {
    pub command: String,
    pub stdout: String,
    pub stderr: String,
    pub exit_code: Option<i32>,
}

impl CommandOutput {
    /// Whether the command succeeded: it has no exit code (it was killed by
    /// a signal) or a non-negative one.
    pub fn success(&self) -> (r: bool)
        ensures
            r == match self.exit_code {
                None => true,
                Some(code) => code >= 0,
            },
    {
        match self.exit_code {
            None => true,
            Some(code) => code >= 0,
        }
    }
}

/// Result returned when a shell job is started.
#[derive(Debug, Clone, PartialEq, Eq)]
pub struct CommandStart {
    pub job_id: u64,
    pub command: String,
}

/// Snapshot of a shell job state.
#[derive(Debug, Clone)]
pub struct CommandJobSnapshot {
    pub job_id: u64,
    pub output: CommandOutput,
    pub running: bool,
}

/// Result returned when requesting job termination.
#[derive(Debug, Clone, PartialEq, Eq, Structural)]
pub struct CommandKill {
    pub job_id: u64,
    pub killed: bool,
}

} // verus!
