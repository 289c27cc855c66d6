use vstd::prelude::*;
use vstd::string::StringExecFns;
use crate::jobs::{Job, JobStatus};

verus! {

/// Where the background worker stands in handling one job.
pub enum WorkerPhase {
    /// Waiting for a wake-up, a tick or cancellation.
    Idle,
    /// Asking the database for the oldest pending job (and locking it).
    Claiming,
    /// Looking up the audio file of a claimed job.
    LoadingFile { job: Job },
    /// Running the beat analysis for a claimed job.
    Analyzing { job: Job },
    /// Storing the analysis result of a claimed job.
    Saving { job: Job },
    /// Shut down.
    Stopped,
}

/// What the worker's surroundings report back.
pub enum WorkerEvent {
    /// Shutdown was requested.
    Cancelled,
    /// A wake-up message arrived or the polling interval passed.
    Woken,
    /// The oldest pending job was claimed.
    Claimed(Job),
    /// No job is pending.
    NothingPending,
    /// Claiming failed with a database error.
    ClaimFailed(String),
    /// The job's audio file was found at this path.
    FileFound(String),
    /// The job's audio file could not be loaded.
    FileMissing,
    /// The analysis succeeded.
    Analyzed,
    /// The analysis reported an error.
    AnalysisFailed(String),
    /// The analysis task panicked.
    AnalysisPanicked,
    /// The analysis result was stored.
    Saved,
    /// Storing the analysis result failed with a database error.
    SaveFailed(String),
}

/// What the worker asks its surroundings to do next.
pub enum WorkerAction {
    /// Leave the loop.
    Stop,
    /// Wait for the next wake-up, tick or cancellation.
    WaitForWork,
    /// Claim the oldest pending job.
    ClaimNextJob,
    /// Look up the audio file with this id.
    LoadFile { file_id: String },
    /// Analyse the audio file at this path.
    Analyze { path: String },
    /// Store the analysis result for the audio file with this id.
    SaveAnalysis { file_id: String },
    /// Record a final status (and error message) for the job.
    FinishJob { job_id: String, status: JobStatus, error: Option<String> },
    /// Mark the audio file as failed, then record the job as failed.
    FailFileAndJob { file_id: String, job_id: String, reason: String },
}

/// Whether the worker expects `event` in `phase`.
pub open spec fn accepts(phase: WorkerPhase, event: WorkerEvent) -> bool {
    match phase {
        WorkerPhase::Idle => event is Cancelled || event is Woken,
        WorkerPhase::Claiming => event is Claimed || event is NothingPending || event is ClaimFailed,
        WorkerPhase::LoadingFile { .. } => event is FileFound || event is FileMissing,
        WorkerPhase::Analyzing { .. } => event is Analyzed || event is AnalysisFailed
            || event is AnalysisPanicked,
        WorkerPhase::Saving { .. } => event is Saved || event is SaveFailed,
        WorkerPhase::Stopped => false,
    }
}

impl WorkerPhase {
    /// Whether the worker expects `event` in this phase.
    pub fn accepts_event(&self, event: &WorkerEvent) -> (r: bool)
        ensures
            r == accepts(*self, *event),
    {
        match self {
            WorkerPhase::Idle => matches!(event, WorkerEvent::Cancelled | WorkerEvent::Woken),
            WorkerPhase::Claiming => matches!(
                event,
                WorkerEvent::Claimed(_) | WorkerEvent::NothingPending | WorkerEvent::ClaimFailed(_)
            ),
            WorkerPhase::LoadingFile { .. } => matches!(
                event,
                WorkerEvent::FileFound(_) | WorkerEvent::FileMissing
            ),
            WorkerPhase::Analyzing { .. } => matches!(
                event,
                WorkerEvent::Analyzed | WorkerEvent::AnalysisFailed(_) | WorkerEvent::AnalysisPanicked
            ),
            WorkerPhase::Saving { .. } => matches!(event, WorkerEvent::Saved | WorkerEvent::SaveFailed(_)),
            WorkerPhase::Stopped => false,
        }
    }
}

/// Whether the action records `status` with the error text `error` for job `id`.
pub open spec fn finishes_job(a: WorkerAction, id: Seq<char>, status: JobStatus, error: Option<Seq<char>>) -> bool {
    match a {
        WorkerAction::FinishJob { job_id, status: s, error: e } => job_id@ == id && s == status && match (
            e,
            error,
        ) {
            (None, None) => true,
            (Some(x), Some(y)) => x@ == y,
            _ => false,
        },
        _ => false,
    }
}

/// Whether the action marks the job's audio file failed and records the
/// job as failed with the error text `error`.
pub open spec fn fails_file_and_job(a: WorkerAction, job: Job, error: Seq<char>) -> bool {
    match a {
        WorkerAction::FailFileAndJob { file_id, job_id, reason: e } => file_id@ == job.audio_file_id@
            && job_id@ == job.id@ && e@ == error,
        _ => false,
    }
}

/// The worker's decision: from `phase` and `event` to the next phase `next`
/// and the action `a` to perform.
pub open spec fn worker_step(phase: WorkerPhase, event: WorkerEvent, next: WorkerPhase, a: WorkerAction) -> bool {
    match phase {
        WorkerPhase::Idle => match event {
            WorkerEvent::Cancelled => next is Stopped && a is Stop,
            WorkerEvent::Woken => next is Claiming && a is ClaimNextJob,
            _ => false,
        },
        WorkerPhase::Claiming => match event {
            WorkerEvent::Claimed(job) => {
                &&& next == (WorkerPhase::LoadingFile { job })
                &&& a matches WorkerAction::LoadFile { file_id }
                &&& file_id@ == job.audio_file_id@
            },
            WorkerEvent::NothingPending => next is Idle && a is WaitForWork,
            WorkerEvent::ClaimFailed(_) => next is Idle && a is WaitForWork,
            _ => false,
        },
        WorkerPhase::LoadingFile { job } => match event {
            WorkerEvent::FileFound(path) => {
                &&& next == (WorkerPhase::Analyzing { job })
                &&& a matches WorkerAction::Analyze { path: p }
                &&& p@ == path@
            },
            WorkerEvent::FileMissing => next is Idle && finishes_job(
                a,
                job.id@,
                JobStatus::Failed,
                Some("File not found"@),
            ),
            _ => false,
        },
        WorkerPhase::Analyzing { job } => match event {
            WorkerEvent::Analyzed => {
                &&& next == (WorkerPhase::Saving { job })
                &&& a matches WorkerAction::SaveAnalysis { file_id }
                &&& file_id@ == job.audio_file_id@
            },
            WorkerEvent::AnalysisFailed(e) => {
                &&& next is Idle
                &&& fails_file_and_job(a, job, e@)
            },
            WorkerEvent::AnalysisPanicked => {
                &&& next is Idle
                &&& fails_file_and_job(a, job, "Thread panic"@)
            },
            _ => false,
        },
        WorkerPhase::Saving { job } => match event {
            WorkerEvent::Saved => next is Idle && finishes_job(a, job.id@, JobStatus::Completed, None),
            WorkerEvent::SaveFailed(e) => next is Idle && finishes_job(
                a,
                job.id@,
                JobStatus::Failed,
                Some("DB save error: "@ + e@),
            ),
            _ => false,
        },
        WorkerPhase::Stopped => false,
    }
}

/// The worker's decision for one event: what to do next and where it then
/// stands. Each claimed job is carried until a final status is recorded for
/// it; cancellation is only honoured while idle.
pub fn decide_worker_step(phase: WorkerPhase, event: WorkerEvent) -> (r: (WorkerPhase, WorkerAction))
    requires
        accepts(phase, event),
    ensures
        worker_step(phase, event, r.0, r.1),
{
    match phase {
        WorkerPhase::Idle => match event {
            WorkerEvent::Cancelled => (WorkerPhase::Stopped, WorkerAction::Stop),
            _ => (WorkerPhase::Claiming, WorkerAction::ClaimNextJob),
        },
        WorkerPhase::Claiming => match event {
            WorkerEvent::Claimed(job) => {
                let file_id = job.audio_file_id.clone();
                (WorkerPhase::LoadingFile { job }, WorkerAction::LoadFile { file_id })
            },
            _ => (WorkerPhase::Idle, WorkerAction::WaitForWork),
        },
        WorkerPhase::LoadingFile { job } => match event {
            WorkerEvent::FileFound(path) => (WorkerPhase::Analyzing { job }, WorkerAction::Analyze { path }),
            _ => (
                WorkerPhase::Idle,
                WorkerAction::FinishJob {
                    job_id: job.id,
                    status: JobStatus::Failed,
                    error: Some(String::from_str("File not found")),
                },
            ),
        },
        WorkerPhase::Analyzing { job } => match event {
            WorkerEvent::Analyzed => {
                let file_id = job.audio_file_id.clone();
                (WorkerPhase::Saving { job }, WorkerAction::SaveAnalysis { file_id })
            },
            WorkerEvent::AnalysisFailed(e) => (
                WorkerPhase::Idle,
                WorkerAction::FailFileAndJob { file_id: job.audio_file_id, job_id: job.id, reason: e },
            ),
            _ => (
                WorkerPhase::Idle,
                WorkerAction::FailFileAndJob {
                    file_id: job.audio_file_id,
                    job_id: job.id,
                    reason: String::from_str("Thread panic"),
                },
            ),
        },
        WorkerPhase::Saving { job } => match event {
            WorkerEvent::Saved => (
                WorkerPhase::Idle,
                WorkerAction::FinishJob { job_id: job.id, status: JobStatus::Completed, error: None },
            ),
            WorkerEvent::SaveFailed(e) => {
                let mut msg = String::from_str("DB save error: ");
                msg.append(e.as_str());
                (
                    WorkerPhase::Idle,
                    WorkerAction::FinishJob { job_id: job.id, status: JobStatus::Failed, error: Some(msg) },
                )
            },
            _ => (WorkerPhase::Idle, WorkerAction::WaitForWork),
        },
        WorkerPhase::Stopped => (WorkerPhase::Stopped, WorkerAction::Stop),
    }
}

/// A run of the worker from idle: `phases[i]` is where it stood before
/// `events[i]`, and `actions[i]` is what it decided on that event.
pub open spec fn valid_run(phases: Seq<WorkerPhase>, events: Seq<WorkerEvent>, actions: Seq<WorkerAction>) -> bool {
    &&& phases.len() == events.len() + 1
    &&& actions.len() == events.len()
    &&& phases[0] is Idle
    &&& forall|i: int|
        0 <= i < events.len() ==> accepts(phases[i], #[trigger] events[i]) && worker_step(
            phases[i],
            events[i],
            phases[i + 1],
            actions[i],
        )
}

/// The ids of the jobs claimed along `events`, in order.
pub open spec fn claimed_ids(events: Seq<WorkerEvent>) -> Seq<Seq<char>>
    decreases events.len(),
{
    if events.len() == 0 {
        Seq::empty()
    } else {
        let before = claimed_ids(events.drop_last());
        match events.last() {
            WorkerEvent::Claimed(job) => before.push(job.id@),
            _ => before,
        }
    }
}

/// The ids of the jobs given a final status along `actions`, in order.
pub open spec fn finished_ids(actions: Seq<WorkerAction>) -> Seq<Seq<char>>
    decreases actions.len(),
{
    if actions.len() == 0 {
        Seq::empty()
    } else {
        let before = finished_ids(actions.drop_last());
        match actions.last() {
            WorkerAction::FinishJob { job_id, .. } => before.push(job_id@),
            WorkerAction::FailFileAndJob { job_id, .. } => before.push(job_id@),
            _ => before,
        }
    }
}

/// The id of the job the worker is handling in `phase`, if any.
pub open spec fn in_flight_ids(phase: WorkerPhase) -> Seq<Seq<char>> {
    match phase {
        WorkerPhase::LoadingFile { job } => seq![job.id@],
        WorkerPhase::Analyzing { job } => seq![job.id@],
        WorkerPhase::Saving { job } => seq![job.id@],
        _ => Seq::empty(),
    }
}

/// Every job the worker claims is given exactly one final status, in the
/// order the jobs were claimed; at any point at most the one job in hand is
/// still waiting for it.
pub proof fn lemma_claimed_jobs_are_finished(
    phases: Seq<WorkerPhase>,
    events: Seq<WorkerEvent>,
    actions: Seq<WorkerAction>,
)
    requires
        valid_run(phases, events, actions),
    ensures
        claimed_ids(events) == finished_ids(actions) + in_flight_ids(phases.last()),
    decreases events.len(),
{
    if events.len() == 0 {
        assert(phases.last() is Idle);
        assert(claimed_ids(events) =~= finished_ids(actions) + in_flight_ids(phases.last()));
    } else {
        let n = events.len() - 1;
        let ps = phases.drop_last();
        let es = events.drop_last();
        let acts = actions.drop_last();
        assert(valid_run(ps, es, acts)) by {
            assert forall|i: int| 0 <= i < es.len() implies accepts(ps[i], #[trigger] es[i]) && worker_step(
                ps[i],
                es[i],
                ps[i + 1],
                acts[i],
            ) by {
                assert(accepts(phases[i], events[i]));
            }
        }
        lemma_claimed_jobs_are_finished(ps, es, acts);
        assert(ps.last() == phases[n]);
        assert(accepts(phases[n], events[n]));
        assert(worker_step(phases[n], events[n], phases[n + 1], actions[n]));
        assert(events.last() == events[n]);
        assert(actions.last() == actions[n]);
        assert(phases.last() == phases[n + 1]);
        assert(claimed_ids(events) =~= finished_ids(actions) + in_flight_ids(phases.last()));
    }
}

/// In any run, the worker asks to stop exactly on a cancellation, which it
/// sees only while idle; database errors, missing files, failed or panicked
/// analyses and failed saves all leave it running; and after stopping it
/// takes no further event.
pub proof fn lemma_run_stops_only_on_cancel(
    phases: Seq<WorkerPhase>,
    events: Seq<WorkerEvent>,
    actions: Seq<WorkerAction>,
)
    requires
        valid_run(phases, events, actions),
    ensures
        forall|i: int| 0 <= i < events.len() ==> ((#[trigger] actions[i] is Stop) <==> events[i] is Cancelled),
        forall|i: int| 0 <= i < events.len() && events[i] is Cancelled ==> phases[i] is Idle && i == events.len() - 1,
        forall|i: int| 0 <= i < events.len() && !(events[i] is Cancelled) ==> !(phases[i + 1] is Stopped),
{
    assert forall|i: int| 0 <= i < events.len() implies ((#[trigger] actions[i] is Stop) <==> events[i] is Cancelled) by {
        assert(accepts(phases[i], events[i]) && worker_step(phases[i], events[i], phases[i + 1], actions[i]));
    }
    assert forall|i: int| 0 <= i < events.len() && events[i] is Cancelled implies phases[i] is Idle && i == events.len() - 1 by {
        assert(accepts(phases[i], events[i]) && worker_step(phases[i], events[i], phases[i + 1], actions[i]));
        if i < events.len() - 1 {
            assert(accepts(phases[i + 1], events[i + 1]));
        }
    }
    assert forall|i: int| 0 <= i < events.len() && !(events[i] is Cancelled) implies !(phases[i + 1] is Stopped) by {
        assert(accepts(phases[i], events[i]) && worker_step(phases[i], events[i], phases[i + 1], actions[i]));
    }
}

/// Every final status the worker records is either `completed` with no
/// error text or `failed` with one.
pub proof fn lemma_final_status_shape(
    phase: WorkerPhase,
    event: WorkerEvent,
    next: WorkerPhase,
    a: WorkerAction,
)
    requires
        worker_step(phase, event, next, a),
    ensures
        a matches WorkerAction::FinishJob { status, error, .. } ==> (status == JobStatus::Completed
            && error is None) || (status == JobStatus::Failed && error is Some),
{
}

/// A job is recorded as completed only when its analysis result was just
/// stored.
pub proof fn lemma_completion_follows_save(
    phase: WorkerPhase,
    event: WorkerEvent,
    next: WorkerPhase,
    a: WorkerAction,
)
    requires
        worker_step(phase, event, next, a),
        a matches WorkerAction::FinishJob { status, .. } && status == JobStatus::Completed,
    ensures
        phase is Saving,
        event is Saved,
{
}

/// The worker stops only from idle on cancellation, so shutting down never
/// abandons a claimed job; once stopped it expects nothing more.
pub proof fn lemma_stop_only_when_idle(
    phase: WorkerPhase,
    event: WorkerEvent,
    next: WorkerPhase,
    a: WorkerAction,
)
    requires
        worker_step(phase, event, next, a),
        next is Stopped,
    ensures
        phase is Idle,
        event is Cancelled,
        a is Stop,
        forall|e: WorkerEvent| !accepts(next, e),
{
}

} // verus!
