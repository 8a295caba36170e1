//! What the interactive UI keeps between turns.
use vstd::prelude::*;
use crate::prompt::ActiveShellJob;
use crate::shell_service::Environment;

verus! {

/// State information for the UI.
#[derive(Debug, Clone)]
pub struct UIState {
    pub cwd: String,
    pub conversation_id: Option<String>,
    pub active_shell_job: Option<ActiveShellJob>,
}

impl UIState {
    /// The state at the start of a session in `env`: its working
    /// directory, no conversation and no job yet.
    pub fn new(env: Environment) -> (r: Self)
        ensures
            r.cwd == env.cwd,
            r.conversation_id is None,
            r.active_shell_job is None,
    {
        UIState { cwd: env.cwd, conversation_id: None, active_shell_job: None }
    }

    /// Sets the working directory.
    pub fn cwd(&mut self, cwd: String)
        ensures
            *final(self) == (UIState { cwd, ..*old(self) }),
    {
        self.cwd = cwd;
    }

    /// Sets the current conversation.
    pub fn conversation_id(&mut self, id: String)
        ensures
            *final(self) == (UIState { conversation_id: Some(id), ..*old(self) }),
    {
        self.conversation_id = Some(id);
    }

    /// Sets the background job shown in the prompt.
    pub fn active_shell_job(&mut self, job: ActiveShellJob)
        ensures
            *final(self) == (UIState { active_shell_job: Some(job), ..*old(self) }),
    {
        self.active_shell_job = Some(job);
    }
}

} // verus!
