//! The table of background shell jobs: which jobs exist, what each has
//! written so far, whether it still runs, and whether it can still be
//! killed. Job ids count up from 1 and are never reused; at most one job
//! runs at a time.
use vstd::prelude::*;
use crate::shell::{lossy_text, utf8_lossy, CommandJobSnapshot, CommandOutput};

verus! {

/// What is known of one job.
pub struct JobState {
    pub command: String,
    pub stdout: Vec<u8>,
    pub stderr: Vec<u8>,
    pub exit_code: Option<i32>,
    pub running: bool,
}

/// A snapshot taken of a job's state by its plain values.
pub open spec fn snapshot_matches(s: CommandJobSnapshot, job_id: u64, j: JobView) -> bool {
    &&& s.job_id == job_id
    &&& s.running == j.running
    &&& s.output.command@ == j.command
    &&& s.output.stdout@ == lossy_text(j.stdout)
    &&& s.output.stderr@ == lossy_text(j.stderr)
    &&& s.output.exit_code == j.exit_code
}

impl JobState {
    /// This state by its plain values, with whether the job can still be
    /// killed.
    pub open spec fn job_view(&self, kill_armed: bool) -> JobView {
        JobView {
            command: self.command@,
            stdout: self.stdout@,
            stderr: self.stderr@,
            exit_code: self.exit_code,
            running: self.running,
            kill_armed,
        }
    }

    /// The job's state as reported to the tools: the output read as text.
    pub fn snapshot(&self, job_id: u64) -> (r: CommandJobSnapshot)
        ensures
            snapshot_matches(r, job_id, self.job_view(false)),
    {
        CommandJobSnapshot {
            job_id,
            output: CommandOutput {
                command: self.command.clone(),
                stdout: utf8_lossy(self.stdout.as_slice()),
                stderr: utf8_lossy(self.stderr.as_slice()),
                exit_code: self.exit_code,
            },
            running: self.running,
        }
    }
}

/// One job by its plain values.
pub struct JobView {
    pub command: Seq<char>,
    pub stdout: Seq<u8>,
    pub stderr: Seq<u8>,
    pub exit_code: Option<i32>,
    pub running: bool,
    /// The job can still be sent a kill request.
    pub kill_armed: bool,
}

/// How waiting for a job's process ended.
pub enum WaitOutcome {
    /// The process exited, with its exit code if it had one.
    Exited(Option<i32>),
    /// Waiting failed with this error text.
    Failed(String),
}

/// A wait outcome by its plain values.
pub enum WaitOutcomeView {
    Exited(Option<i32>),
    Failed(Seq<char>),
}

impl WaitOutcome {
    /// This outcome by its plain values.
    pub open spec fn outcome_view(&self) -> WaitOutcomeView {
        match self {
            WaitOutcome::Exited(c) => WaitOutcomeView::Exited(*c),
            WaitOutcome::Failed(e) => WaitOutcomeView::Failed(e@),
        }
    }
}

/// The note added to a job's error output when waiting for it failed.
pub open spec fn wait_failure_note(err: Seq<char>) -> Seq<u8> {
    vstd::utf8::encode_utf8("\n[forge] failed waiting for process: "@ + err + "\n"@)
}

/// The job table by its plain values: the job with id `i + 1` is
/// `jobs[i]`, and `next_job_id` is the id the next job gets.
pub struct JobTableView {
    pub jobs: Seq<JobView>,
    pub next_job_id: u64,
}

impl JobTableView {
    /// Ids match positions, and at most one job runs.
    pub open spec fn wf(self) -> bool {
        &&& self.jobs.len() + 1 == self.next_job_id
        &&& forall|i: int, k: int|
            0 <= i < self.jobs.len() && 0 <= k < self.jobs.len() && #[trigger] self.jobs[i].running
                && #[trigger] self.jobs[k].running ==> i == k
    }

    /// The job with id `id`, if there is one.
    pub open spec fn job(self, id: u64) -> Option<JobView> {
        if 1 <= id && id - 1 < self.jobs.len() {
            Some(self.jobs[id - 1])
        } else {
            None
        }
    }

    /// Some job is running.
    pub open spec fn has_running(self) -> bool {
        exists|i: int| 0 <= i < self.jobs.len() && #[trigger] self.jobs[i].running
    }

    /// The table with a new running job for `command`, under the next id.
    pub open spec fn register(self, command: Seq<char>) -> Self {
        JobTableView {
            jobs: self.jobs.push(
                JobView {
                    command,
                    stdout: seq![],
                    stderr: seq![],
                    exit_code: None,
                    running: true,
                    kill_armed: true,
                },
            ),
            next_job_id: (self.next_job_id + 1) as u64,
        }
    }

    /// The table with job `id` replaced by `j`.
    pub open spec fn with_job(self, id: u64, j: JobView) -> Self {
        JobTableView { jobs: self.jobs.update(id - 1, j), next_job_id: self.next_job_id }
    }

    /// The table after job `id` wrote `bytes` to one of its streams.
    pub open spec fn append_output(self, id: u64, is_stdout: bool, bytes: Seq<u8>) -> Self {
        let j = self.jobs[id - 1];
        if is_stdout {
            self.with_job(id, JobView { stdout: j.stdout + bytes, ..j })
        } else {
            self.with_job(id, JobView { stderr: j.stderr + bytes, ..j })
        }
    }

    /// The table after job `id`'s process ended: it no longer runs, and it
    /// has the process's exit code, or exit code 1 and a note on its error
    /// output when waiting failed.
    pub open spec fn finish(self, id: u64, outcome: WaitOutcomeView) -> Self {
        let j = self.jobs[id - 1];
        match outcome {
            WaitOutcomeView::Exited(code) => self.with_job(
                id,
                JobView { exit_code: code, running: false, ..j },
            ),
            WaitOutcomeView::Failed(err) => self.with_job(
                id,
                JobView {
                    stderr: j.stderr + wait_failure_note(err),
                    exit_code: Some(1),
                    running: false,
                    ..j
                },
            ),
        }
    }

    /// The table after job `id`'s kill request was used up.
    pub open spec fn take_kill(self, id: u64) -> Self {
        let j = self.jobs[id - 1];
        self.with_job(id, JobView { kill_armed: false, ..j })
    }
}

struct ShellJob {
    state: JobState,
    kill_armed: bool,
}

/// The background jobs started so far.
pub struct JobTable {
    jobs: Vec<ShellJob>,
    next_job_id: u64,
}

/// Why a job request failed.
#[derive(Debug, Clone, PartialEq, Eq)]
pub enum JobError {
    /// No job has this id.
    NotFound(u64),
    /// A job is still running, so no other may start.
    AlreadyRunning { job_id: u64, command: String },
}

/// The text the user sees for a job error.
pub open spec fn job_error_message(e: JobError) -> Seq<char> {
    match e {
        JobError::NotFound(id) => "Shell job "@ + crate::text::decimal_text(id as nat)
            + " not found"@,
        JobError::AlreadyRunning { job_id, command } => "Shell job "@
            + crate::text::decimal_text(job_id as nat) + " is already running for command `"@
            + command@
            + "`. Use shell_poll, shell_wait, or shell_kill before starting another command."@,
    }
}

impl JobError {
    /// The text the user sees for this error.
    pub fn message(&self) -> (m: String)
        ensures
            m@ == job_error_message(*self),
    {
        match self {
            JobError::NotFound(id) => {
                let mut m = String::from_str("Shell job ");
                crate::text::push_decimal(&mut m, *id);
                m.append(" not found");
                m
            },
            JobError::AlreadyRunning { job_id, command } => {
                let mut m = String::from_str("Shell job ");
                crate::text::push_decimal(&mut m, *job_id);
                m.append(" is already running for command `");
                m.append(command.as_str());
                m.append(
                    "`. Use shell_poll, shell_wait, or shell_kill before starting another command.",
                );
                m
            },
        }
    }
}

impl View for JobTable {
    type V = JobTableView;

    closed spec fn view(&self) -> JobTableView {
        parts_view(self.jobs@, self.next_job_id)
    }
}

/// The table that the stored jobs and the id counter make up.
spec fn parts_view(jobs: Seq<ShellJob>, next_job_id: u64) -> JobTableView {
    JobTableView {
        jobs: jobs.map_values(|j: ShellJob| j.state.job_view(j.kill_armed)),
        next_job_id,
    }
}

impl JobTable {
    /// Every table the methods hand out is well formed.
    #[verifier::type_invariant]
    spec fn inv(self) -> bool {
        self@.wf()
    }
}

impl JobTable {
    /// An empty table; the first job gets id 1.
    pub fn new() -> (t: Self)
        ensures
            t@.wf(),
            t@.jobs.len() == 0,
            t@.next_job_id == 1,
    {
        let t = JobTable { jobs: Vec::new(), next_job_id: 1 };
        assert(t@.jobs =~= Seq::<JobView>::empty());
        t
    }

    /// The id the next job will get.
    pub fn next_job_id(&self) -> (r: u64)
        ensures
            r == self@.next_job_id,
    {
        self.next_job_id
    }

    fn position(&self, job_id: u64) -> (i: usize)
        requires
            self@.job(job_id) is Some,
        ensures
            i == job_id - 1,
            i < self.jobs@.len(),
    {
        let n = self.jobs.len();
        assert(job_id - 1 < n);
        (job_id - 1) as usize
    }

    fn index_of(&self, job_id: u64) -> (r: Option<usize>)
        ensures
            r is Some <==> self@.job(job_id) is Some,
            r matches Some(i) ==> i == job_id - 1 && i < self.jobs@.len(),
    {
        proof {
            use_type_invariant(self);
        }
        let n = self.jobs.len();
        if job_id >= 1 && job_id - 1 < (n as u64) {
            Some((job_id - 1) as usize)
        } else {
            None
        }
    }

    /// The id of the running job, if one runs.
    pub fn running_job(&self) -> (r: Option<u64>)
        ensures
            r is Some <==> self@.has_running(),
            r matches Some(id) ==> self@.job(id) matches Some(j) && j.running,
    {
        proof {
            use_type_invariant(self);
        }
        let mut i: usize = 0;
        while i < self.jobs.len()
            invariant
                self@.wf(),
                i <= self.jobs@.len(),
                forall|k: int| 0 <= k < i ==> !(#[trigger] self@.jobs[k]).running,
            decreases self.jobs@.len() - i,
        {
            if self.jobs[i].state.running {
                assert(self@.jobs[i as int].running);
                return Some((i + 1) as u64);
            }
            i = i + 1;
        }
        None
    }

    /// Refuses to start a job while another runs, naming the running one.
    pub fn check_can_start(&self) -> (r: Result<(), JobError>)
        ensures
            r is Ok <==> !self@.has_running(),
            r matches Err(e) ==> e matches JobError::AlreadyRunning { job_id, command }
                && self@.job(job_id) matches Some(j) && j.running && j.command == command@,
    {
        match self.running_job() {
            None => Ok(()),
            Some(id) => {
                let i = self.position(id);
                let command = self.jobs[i].state.command.clone();
                Err(JobError::AlreadyRunning { job_id: id, command })
            },
        }
    }

    /// Takes the stored jobs and the id counter out, leaving an empty
    /// table in their place until they are put back.
    fn take_parts(&mut self) -> (r: (Vec<ShellJob>, u64))
        ensures
            parts_view(r.0@, r.1) == old(self)@,
            old(self)@.wf(),
    {
        proof {
            use_type_invariant(&*self);
        }
        let mut taken = JobTable { jobs: Vec::new(), next_job_id: 1 };
        proof {
            assert(taken@.jobs =~= Seq::<JobView>::empty());
        }
        std::mem::swap(self, &mut taken);
        let JobTable { jobs, next_job_id } = taken;
        (jobs, next_job_id)
    }

    /// Makes the table out of well-formed parts.
    fn put_parts(&mut self, jobs: Vec<ShellJob>, next_job_id: u64)
        requires
            parts_view(jobs@, next_job_id).wf(),
        ensures
            final(self)@ == parts_view(jobs@, next_job_id),
    {
        *self = JobTable { jobs, next_job_id };
    }

    /// Records a newly started job for `command` and returns its id.
    pub fn register(&mut self, command: String) -> (id: u64)
        requires
            !old(self)@.has_running(),
            old(self)@.next_job_id < u64::MAX,
        ensures
            id == old(self)@.next_job_id,
            old(self)@.job(id) is None,
            final(self)@ == old(self)@.register(command@),
            final(self)@.wf(),
    {
        let (mut jobs, id) = self.take_parts();
        let ghost before = parts_view(jobs@, id);
        jobs.push(
            ShellJob {
                state: JobState {
                    command,
                    stdout: Vec::new(),
                    stderr: Vec::new(),
                    exit_code: None,
                    running: true,
                },
                kill_armed: true,
            },
        );
        proof {
            assert(parts_view(jobs@, (id + 1) as u64).jobs =~= before.register(command@).jobs);
            lemma_register_fresh_id(before, command@);
        }
        self.put_parts(jobs, id + 1);
        id
    }

    /// Adds `bytes` written by job `job_id` to its output.
    pub fn append_output(&mut self, job_id: u64, is_stdout: bool, bytes: &[u8])
        requires
            old(self)@.job(job_id) is Some,
        ensures
            final(self)@ == old(self)@.append_output(job_id, is_stdout, bytes@),
            final(self)@.wf(),
    {
        let (mut jobs, next) = self.take_parts();
        let ghost before = parts_view(jobs@, next);
        let n = jobs.len();
        assert(job_id - 1 < n);
        let i = (job_id - 1) as usize;
        if is_stdout {
            jobs[i].state.stdout.extend_from_slice(bytes);
        } else {
            jobs[i].state.stderr.extend_from_slice(bytes);
        }
        proof {
            let j = before.jobs[i as int];
            let after = parts_view(jobs@, next);
            if is_stdout {
                assert(after.jobs[i as int].stdout =~= j.stdout + bytes@);
            } else {
                assert(after.jobs[i as int].stderr =~= j.stderr + bytes@);
            }
            assert(after.jobs =~= before.append_output(job_id, is_stdout, bytes@).jobs);
            lemma_with_job_keeps_wf(before, job_id);
        }
        self.put_parts(jobs, next);
    }

    /// Records that job `job_id`'s process ended.
    pub fn finish(&mut self, job_id: u64, outcome: WaitOutcome)
        requires
            old(self)@.job(job_id) is Some,
        ensures
            final(self)@ == old(self)@.finish(job_id, outcome.outcome_view()),
            final(self)@.wf(),
    {
        let (mut jobs, next) = self.take_parts();
        let ghost before = parts_view(jobs@, next);
        let ghost ov = outcome.outcome_view();
        let n = jobs.len();
        assert(job_id - 1 < n);
        let i = (job_id - 1) as usize;
        match outcome {
            WaitOutcome::Exited(code) => {
                jobs[i].state.exit_code = code;
            },
            WaitOutcome::Failed(err) => {
                let mut note = String::from_str("\n[forge] failed waiting for process: ");
                note.append(err.as_str());
                note.append("\n");
                jobs[i].state.stderr.extend_from_slice(note.as_str().as_bytes());
                jobs[i].state.exit_code = Some(1);
                proof {
                    let j = before.jobs[i as int];
                    assert(parts_view(jobs@, next).jobs[i as int].stderr =~= j.stderr
                        + wait_failure_note(err@));
                }
            },
        }
        jobs[i].state.running = false;
        proof {
            assert(parts_view(jobs@, next).jobs =~= before.finish(job_id, ov).jobs);
            lemma_with_job_keeps_wf(before, job_id);
        }
        self.put_parts(jobs, next);
    }

    /// Uses up job `job_id`'s kill request: `true` if it was still there.
    pub fn take_kill_handle(&mut self, job_id: u64) -> (r: Result<bool, JobError>)
        ensures
            final(self)@.wf(),
            match old(self)@.job(job_id) {
                None => r == Err::<bool, JobError>(JobError::NotFound(job_id)) && final(self)@
                    == old(self)@,
                Some(j) => r == Ok::<bool, JobError>(j.kill_armed) && final(self)@ == old(
                    self,
                )@.take_kill(job_id),
            },
    {
        match self.index_of(job_id) {
            None => {
                proof {
                    use_type_invariant(&*self);
                }
                Err(JobError::NotFound(job_id))
            },
            Some(i) => {
                let (mut jobs, next) = self.take_parts();
                let ghost before = parts_view(jobs@, next);
                let armed = jobs[i].kill_armed;
                jobs[i].kill_armed = false;
                proof {
                    assert(parts_view(jobs@, next).jobs =~= before.take_kill(job_id).jobs);
                    lemma_with_job_keeps_wf(before, job_id);
                }
                self.put_parts(jobs, next);
                Ok(armed)
            },
        }
    }

    /// Whether job `job_id` still runs.
    pub fn is_running(&self, job_id: u64) -> (r: Result<bool, JobError>)
        ensures
            match self@.job(job_id) {
                None => r == Err::<bool, JobError>(JobError::NotFound(job_id)),
                Some(j) => r == Ok::<bool, JobError>(j.running),
            },
    {
        match self.index_of(job_id) {
            None => Err(JobError::NotFound(job_id)),
            Some(i) => Ok(self.jobs[i].state.running),
        }
    }

    /// The state of job `job_id` as reported to the tools.
    pub fn snapshot(&self, job_id: u64) -> (r: Result<CommandJobSnapshot, JobError>)
        ensures
            match self@.job(job_id) {
                None => r == Err::<CommandJobSnapshot, JobError>(JobError::NotFound(job_id)),
                Some(j) => r matches Ok(s) && snapshot_matches(s, job_id, j),
            },
    {
        match self.index_of(job_id) {
            None => Err(JobError::NotFound(job_id)),
            Some(i) => Ok(self.jobs[i].state.snapshot(job_id)),
        }
    }
}

/// Replacing one job by a job that runs only if the replaced one ran
/// keeps the table well formed: no change but a start makes a job run.
proof fn lemma_with_job_keeps_wf(t: JobTableView, id: u64)
    requires
        t.wf(),
        t.job(id) is Some,
    ensures
        forall|j: JobView|
            (j.running ==> t.jobs[id - 1].running) ==> (#[trigger] t.with_job(id, j)).wf(),
{
    assert forall|j: JobView| (j.running ==> t.jobs[id - 1].running) implies (#[trigger] t.with_job(
        id,
        j,
    )).wf() by {
        let u = t.with_job(id, j);
        assert forall|a: int, k: int|
            0 <= a < u.jobs.len() && 0 <= k < u.jobs.len() && #[trigger] u.jobs[a].running
                && #[trigger] u.jobs[k].running implies a == k by {
            assert(t.jobs[a].running && t.jobs[k].running);
        }
    }
}

/// Starting a job gives it an id no job had, greater than every earlier
/// id, leaves every earlier job as it was, and keeps the table well formed.
pub proof fn lemma_register_fresh_id(t: JobTableView, command: Seq<char>)
    requires
        t.wf(),
        !t.has_running(),
        t.next_job_id < u64::MAX,
    ensures
        t.job(t.next_job_id) is None,
        forall|id: u64| #[trigger] t.job(id) is Some ==> id < t.next_job_id,
        t.register(command).job(t.next_job_id) matches Some(j) && j.running && j.command
            == command && j.stdout.len() == 0 && j.stderr.len() == 0 && j.exit_code is None,
        forall|id: u64| id < t.next_job_id ==> #[trigger] t.register(command).job(id) == t.job(id),
        t.register(command).wf(),
        t.register(command).next_job_id == t.next_job_id + 1,
{
    let r = t.register(command);
    assert forall|i: int, k: int|
        0 <= i < r.jobs.len() && 0 <= k < r.jobs.len() && #[trigger] r.jobs[i].running
            && #[trigger] r.jobs[k].running implies i == k by {
        if i < t.jobs.len() {
            assert(t.jobs[i] == r.jobs[i]);
        }
        if k < t.jobs.len() {
            assert(t.jobs[k] == r.jobs[k]);
        }
    }
}

/// At most one job runs at any time.
pub proof fn lemma_single_running_job(t: JobTableView, a: u64, b: u64)
    requires
        t.wf(),
        t.job(a) matches Some(ja) && ja.running,
        t.job(b) matches Some(jb) && jb.running,
    ensures
        a == b,
{
    assert(t.jobs[a - 1].running && t.jobs[b - 1].running);
}

/// A kill request can be used only once: after it is taken, taking it
/// again reports that it was gone.
pub proof fn lemma_kill_request_once(t: JobTableView, id: u64)
    requires
        t.wf(),
        t.job(id) is Some,
    ensures
        t.take_kill(id).job(id) matches Some(j) && !j.kill_armed,
        t.take_kill(id).take_kill(id) == t.take_kill(id),
{
    let once = t.take_kill(id);
    assert(once.take_kill(id).jobs =~= once.jobs);
}

/// Once a job's process has ended, the job no longer runs, it reports
/// the exit code (1 when waiting failed), and another job may start.
pub proof fn lemma_finished_job_frees_the_table(t: JobTableView, id: u64, outcome: WaitOutcomeView)
    requires
        t.wf(),
        t.job(id) matches Some(j) && j.running,
    ensures
        t.finish(id, outcome).wf(),
        !t.finish(id, outcome).has_running(),
        t.finish(id, outcome).job(id) matches Some(j) && !j.running && j.exit_code == match outcome {
            WaitOutcomeView::Exited(code) => code,
            WaitOutcomeView::Failed(_) => Some(1i32),
        },
{
    let f = t.finish(id, outcome);
    assert forall|i: int| 0 <= i < f.jobs.len() implies !(#[trigger] f.jobs[i]).running by {
        if i != id - 1 {
            assert(f.jobs[i] == t.jobs[i]);
            if t.jobs[i].running {
                assert(t.jobs[id - 1].running);
            }
        }
    }
}

/// Output arriving from a job changes only that job's stream.
pub proof fn lemma_output_goes_to_its_job(
    t: JobTableView,
    id: u64,
    is_stdout: bool,
    bytes: Seq<u8>,
    other: u64,
)
    requires
        t.wf(),
        t.job(id) is Some,
        other != id,
    ensures
        t.append_output(id, is_stdout, bytes).job(other) == t.job(other),
        t.append_output(id, is_stdout, bytes).job(id) matches Some(j) && if is_stdout {
            j.stdout == t.jobs[id - 1].stdout + bytes && j.stderr == t.jobs[id - 1].stderr
        } else {
            j.stderr == t.jobs[id - 1].stderr + bytes && j.stdout == t.jobs[id - 1].stdout
        },
        t.append_output(id, is_stdout, bytes).wf(),
{
    lemma_with_job_keeps_wf(t, id);
}

/// One change to the job table, as the table's methods make them.
pub enum JobOp {
    /// A job for this command started.
    Register(Seq<char>),
    /// A job wrote bytes to its standard output (`true`) or error.
    Append(u64, bool, Seq<u8>),
    /// A job's process ended.
    Finish(u64, WaitOutcomeView),
    /// A kill request for a job was taken.
    TakeKill(u64),
}

impl JobTableView {
    /// The table before any job started.
    pub open spec fn empty() -> Self {
        JobTableView { jobs: seq![], next_job_id: 1 }
    }

    /// The change may be made: a job may start only when none runs (and an
    /// id is left), the other changes need an existing job.
    pub open spec fn enabled(self, op: JobOp) -> bool {
        match op {
            JobOp::Register(_) => !self.has_running() && self.next_job_id < u64::MAX,
            JobOp::Append(id, _, _) => self.job(id) is Some,
            JobOp::Finish(id, _) => self.job(id) is Some,
            JobOp::TakeKill(id) => self.job(id) is Some,
        }
    }

    /// The table after the change.
    pub open spec fn apply(self, op: JobOp) -> Self {
        match op {
            JobOp::Register(c) => self.register(c),
            JobOp::Append(id, is_stdout, bytes) => self.append_output(id, is_stdout, bytes),
            JobOp::Finish(id, outcome) => self.finish(id, outcome),
            JobOp::TakeKill(id) => self.take_kill(id),
        }
    }
}

/// The table after the changes `ops`, in order.
pub open spec fn run_ops(t: JobTableView, ops: Seq<JobOp>) -> JobTableView
    decreases ops.len(),
{
    if ops.len() == 0 {
        t
    } else {
        run_ops(t, ops.drop_last()).apply(ops.last())
    }
}

/// Each change in `ops` may be made when its turn comes.
pub open spec fn ops_valid(t: JobTableView, ops: Seq<JobOp>) -> bool
    decreases ops.len(),
{
    ops.len() == 0 || (ops_valid(t, ops.drop_last()) && run_ops(t, ops.drop_last()).enabled(
        ops.last(),
    ))
}

/// The commands of the jobs started by `ops`, in order.
pub open spec fn started_commands(ops: Seq<JobOp>) -> Seq<Seq<char>>
    decreases ops.len(),
{
    if ops.len() == 0 {
        seq![]
    } else {
        let r = started_commands(ops.drop_last());
        match ops.last() {
            JobOp::Register(c) => r.push(c),
            _ => r,
        }
    }
}

/// `ops` takes a kill request of job `id`.
pub open spec fn takes_kill_of(ops: Seq<JobOp>, id: u64) -> bool {
    exists|k: int| 0 <= k < ops.len() && (#[trigger] ops[k] matches JobOp::TakeKill(x) && x == id)
}

proof fn lemma_apply(t: JobTableView, op: JobOp)
    requires
        t.wf(),
        t.enabled(op),
    ensures
        t.apply(op).wf(),
        t.apply(op).jobs.len() == t.jobs.len() + if op is Register {
            1int
        } else {
            0int
        },
        forall|i: int| 0 <= i < t.jobs.len() ==> (#[trigger] t.apply(op).jobs[i]).command == t.jobs[i].command,
        op matches JobOp::Register(c) ==> t.apply(op).jobs[t.jobs.len() as int].command == c
            && t.apply(op).jobs[t.jobs.len() as int].kill_armed,
        forall|i: int|
            0 <= i < t.jobs.len() && !(op matches JobOp::TakeKill(x) && x - 1 == i) ==> (
            #[trigger] t.apply(op).jobs[i]).kill_armed == t.jobs[i].kill_armed,
        op matches JobOp::TakeKill(x) ==> !t.apply(op).jobs[x - 1].kill_armed,
{
    match op {
        JobOp::Register(c) => {
            lemma_register_fresh_id(t, c);
        },
        JobOp::Append(id, s, b) => {
            lemma_output_goes_to_its_job(t, id, s, b, 0);
        },
        JobOp::Finish(id, _) => {
            lemma_with_job_keeps_wf(t, id);
        },
        JobOp::TakeKill(id) => {
            lemma_with_job_keeps_wf(t, id);
        },
    }
}

/// Job ids run 1, 2, 3, ... without gaps: after any valid sequence of
/// changes from the empty table, the jobs are exactly those started, in
/// order (job `i + 1`, stored at `jobs[i]`, runs the `i`-th started
/// command), and the next job gets the id one past the number started.
pub proof fn lemma_job_ids_count_starts(ops: Seq<JobOp>)
    requires
        ops_valid(JobTableView::empty(), ops),
    ensures
        run_ops(JobTableView::empty(), ops).wf(),
        run_ops(JobTableView::empty(), ops).jobs.len() == started_commands(ops).len(),
        run_ops(JobTableView::empty(), ops).next_job_id == started_commands(ops).len() + 1,
        forall|i: int|
            0 <= i < started_commands(ops).len() ==> (#[trigger] run_ops(
                JobTableView::empty(),
                ops,
            ).jobs[i]).command == started_commands(ops)[i],
    decreases ops.len(),
{
    let e = JobTableView::empty();
    if ops.len() == 0 {
        assert(e.wf());
    } else {
        let pre = ops.drop_last();
        lemma_job_ids_count_starts(pre);
        let t = run_ops(e, pre);
        lemma_apply(t, ops.last());
        let r = run_ops(e, ops);
        assert forall|i: int| 0 <= i < started_commands(ops).len() implies (
        #[trigger] r.jobs[i]).command == started_commands(ops)[i] by {
            if i < started_commands(pre).len() {
                assert(t.jobs[i].command == started_commands(pre)[i]);
                assert(r.jobs[i].command == t.jobs[i].command);
            }
        }
    }
}

/// A job's kill request is taken at most once: once a kill request of job
/// `id` has been taken, every later request finds none (reports `false`).
pub proof fn lemma_kill_reported_once(ops: Seq<JobOp>, id: u64)
    requires
        ops_valid(JobTableView::empty(), ops),
        takes_kill_of(ops, id),
    ensures
        run_ops(JobTableView::empty(), ops).job(id) matches Some(j) && !j.kill_armed,
    decreases ops.len(),
{
    let e = JobTableView::empty();
    let pre = ops.drop_last();
    lemma_job_ids_count_starts(pre);
    let t = run_ops(e, pre);
    lemma_apply(t, ops.last());
    if ops.last() matches JobOp::TakeKill(x) && x == id {
    } else {
        let k = choose|k: int| 0 <= k < ops.len() && (#[trigger] ops[k] matches JobOp::TakeKill(x)
            && x == id);
        assert(k < pre.len());
        assert(pre[k] == ops[k]);
        assert(takes_kill_of(pre, id));
        lemma_kill_reported_once(pre, id);
    }
}

/// The first kill request of a started job finds it: as long as no kill
/// request of job `id` was taken, the job can still be sent one.
pub proof fn lemma_first_kill_request_found(ops: Seq<JobOp>, id: u64)
    requires
        ops_valid(JobTableView::empty(), ops),
        run_ops(JobTableView::empty(), ops).job(id) is Some,
        !takes_kill_of(ops, id),
    ensures
        run_ops(JobTableView::empty(), ops).job(id) matches Some(j) && j.kill_armed,
    decreases ops.len(),
{
    let e = JobTableView::empty();
    if ops.len() > 0 {
        let pre = ops.drop_last();
        lemma_job_ids_count_starts(pre);
        let t = run_ops(e, pre);
        lemma_apply(t, ops.last());
        assert(!takes_kill_of(pre, id)) by {
            if takes_kill_of(pre, id) {
                let k = choose|k: int| 0 <= k < pre.len() && (#[trigger] pre[k] matches JobOp::TakeKill(
                    x,
                ) && x == id);
                assert(ops[k] == pre[k]);
            }
        }
        assert(!(ops.last() matches JobOp::TakeKill(x) && x == id)) by {
            if ops.last() matches JobOp::TakeKill(x) && x == id {
                assert(ops[ops.len() - 1] == ops.last());
            }
        }
        if t.job(id) is Some {
            lemma_first_kill_request_found(pre, id);
        }
    }
}

/// Finishing a job keeps what it wrote: its command and standard output
/// stay as they were, its error output stays as it was when the process
/// exited (whatever the exit code) and only gains the failure note when
/// waiting failed; it records the exit code, and no other job changes.
pub proof fn lemma_finish_keeps_output(t: JobTableView, id: u64, outcome: WaitOutcomeView)
    requires
        t.wf(),
        t.job(id) is Some,
    ensures
        t.finish(id, outcome).job(id) matches Some(j) && {
            &&& j.command == t.jobs[id - 1].command
            &&& j.stdout == t.jobs[id - 1].stdout
            &&& j.stderr == match outcome {
                WaitOutcomeView::Exited(_) => t.jobs[id - 1].stderr,
                WaitOutcomeView::Failed(err) => t.jobs[id - 1].stderr + wait_failure_note(err),
            }
            &&& j.exit_code == match outcome {
                WaitOutcomeView::Exited(code) => code,
                WaitOutcomeView::Failed(_) => Some(1i32),
            }
            &&& !j.running
            &&& j.kill_armed == t.jobs[id - 1].kill_armed
        },
        forall|other: u64| other != id ==> #[trigger] t.finish(id, outcome).job(other) == t.job(other),
        t.finish(id, outcome).next_job_id == t.next_job_id,
{
}

/// Taking a job's kill request changes nothing but that request: the
/// job's command, output, exit code and running state stay, and no other
/// job changes.
pub proof fn lemma_take_kill_changes_only_the_request(t: JobTableView, id: u64)
    requires
        t.wf(),
        t.job(id) is Some,
    ensures
        t.take_kill(id).job(id) matches Some(j) && {
            &&& j.command == t.jobs[id - 1].command
            &&& j.stdout == t.jobs[id - 1].stdout
            &&& j.stderr == t.jobs[id - 1].stderr
            &&& j.exit_code == t.jobs[id - 1].exit_code
            &&& j.running == t.jobs[id - 1].running
            &&& !j.kill_armed
        },
        forall|other: u64| other != id ==> #[trigger] t.take_kill(id).job(other) == t.job(other),
        t.take_kill(id).next_job_id == t.next_job_id,
{
}

/// The bytes `ops` delivers to one stream of job `id`, in order: every
/// chunk appended to that stream, and on the error stream the note left
/// when waiting for the job failed.
pub open spec fn stream_written(ops: Seq<JobOp>, id: u64, is_stdout: bool) -> Seq<u8>
    decreases ops.len(),
{
    if ops.len() == 0 {
        seq![]
    } else {
        let w = stream_written(ops.drop_last(), id, is_stdout);
        match ops.last() {
            JobOp::Append(x, s, b) => if x == id && s == is_stdout {
                w + b
            } else {
                w
            },
            JobOp::Finish(x, WaitOutcomeView::Failed(err)) => if x == id && !is_stdout {
                w + wait_failure_note(err)
            } else {
                w
            },
            _ => w,
        }
    }
}

/// A job's output is everything written to it: after any valid sequence
/// of changes from the empty table, each stream of every job holds exactly
/// the bytes delivered to it, in order; nothing is lost, whatever the
/// job's exit code, and nothing of other jobs or streams mixes in.
pub proof fn lemma_job_output_is_everything_written(ops: Seq<JobOp>, id: u64)
    requires
        ops_valid(JobTableView::empty(), ops),
    ensures
        run_ops(JobTableView::empty(), ops).job(id) matches Some(j) ==> j.stdout == stream_written(
            ops,
            id,
            true,
        ) && j.stderr == stream_written(ops, id, false),
        run_ops(JobTableView::empty(), ops).job(id) is None ==> stream_written(ops, id, true)
            == Seq::<u8>::empty() && stream_written(ops, id, false) == Seq::<u8>::empty(),
    decreases ops.len(),
{
    let e = JobTableView::empty();
    if ops.len() > 0 {
        let pre = ops.drop_last();
        lemma_job_ids_count_starts(pre);
        lemma_job_output_is_everything_written(pre, id);
        let t = run_ops(e, pre);
        let op = ops.last();
        lemma_apply(t, op);
        let r = run_ops(e, ops);
        assert(r == t.apply(op));
        match op {
            JobOp::Register(c) => {
                if t.job(id) is None && r.job(id) is Some {
                    assert(id == t.jobs.len() + 1);
                    assert(r.jobs[id - 1].stdout == Seq::<u8>::empty());
                }
            },
            JobOp::Append(x, s, b) => {
                if x != id {
                    lemma_output_goes_to_its_job(t, x, s, b, id);
                } else {
                    lemma_output_goes_to_its_job(t, x, s, b, 0);
                }
            },
            JobOp::Finish(x, o) => {
                lemma_finish_keeps_output(t, x, o);
            },
            JobOp::TakeKill(x) => {
                lemma_take_kill_changes_only_the_request(t, x);
            },
        }
    }
}

/// A snapshot reports what was written: after any valid sequence of
/// changes, a snapshot of job `id` names that job and the command it was
/// started with, and shows as its two streams the text of exactly the
/// bytes delivered to each.
pub proof fn lemma_snapshot_reports_everything_written(
    ops: Seq<JobOp>,
    id: u64,
    s: CommandJobSnapshot,
)
    requires
        ops_valid(JobTableView::empty(), ops),
        run_ops(JobTableView::empty(), ops).job(id) matches Some(j) && snapshot_matches(s, id, j),
    ensures
        s.job_id == id,
        s.output.command@ == started_commands(ops)[id - 1],
        s.output.stdout@ == lossy_text(stream_written(ops, id, true)),
        s.output.stderr@ == lossy_text(stream_written(ops, id, false)),
{
    lemma_job_output_is_everything_written(ops, id);
    lemma_job_ids_count_starts(ops);
}

} // verus!
