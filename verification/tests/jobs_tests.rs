use korgi_beats::jobs::{authorize_job_view, Job, JobLookup, JobStatus, JobStatusError};
use korgi_beats::worker::{decide_worker_step, WorkerAction, WorkerEvent, WorkerPhase};

fn job(id: &str, owner: &str, status: &str) -> Job {
    Job {
        id: id.to_string(),
        audio_file_id: format!("file-of-{}", id),
        user_id: owner.to_string(),
        status: status.to_string(),
        error_message: None,
    }
}

#[test]
fn status_texts_round_trip() {
    for s in [JobStatus::Pending, JobStatus::Processing, JobStatus::Completed, JobStatus::Failed] {
        assert_eq!(JobStatus::from_text(s.as_str()), Some(s));
    }
    assert_eq!(JobStatus::Completed.as_str(), "completed");
    assert_eq!(JobStatus::from_text("done"), None);
}

#[test]
fn completed_job_has_result() {
    assert!(job("j", "u", "completed").is_completed());
    assert!(!job("j", "u", "processing").is_completed());
    assert!(!job("j", "u", "Completed").is_completed());
}

#[test]
fn owner_sees_job() {
    let r = authorize_job_view(JobLookup::Found(job("j1", "alice", "pending")), "alice");
    assert_eq!(r.ok().unwrap().id, "j1");
}

#[test]
fn other_user_is_forbidden() {
    let e = authorize_job_view(JobLookup::Found(job("j1", "alice", "pending")), "bob").err().unwrap();
    assert!(matches!(e, JobStatusError::Forbidden));
    assert_eq!(e.status_code(), 403);
    assert_eq!(e.error_text(), "Access denied");
}

#[test]
fn missing_job_and_database_error() {
    let e = authorize_job_view(JobLookup::Missing, "alice").err().unwrap();
    assert!(matches!(e, JobStatusError::NotFound));
    assert_eq!(e.status_code(), 404);
    assert_eq!(e.error_text(), "Job not found");
    let e = authorize_job_view(JobLookup::Failed("disk I/O error".to_string()), "alice").err().unwrap();
    assert!(matches!(&e, JobStatusError::Database(d) if d == "disk I/O error"));
    assert_eq!(e.status_code(), 500);
    assert_eq!(e.error_text(), "Database error");
}

#[test]
fn worker_completes_a_job() {
    let (p, a) = decide_worker_step(WorkerPhase::Idle, WorkerEvent::Woken);
    assert!(matches!(a, WorkerAction::ClaimNextJob));
    let (p, a) = decide_worker_step(p, WorkerEvent::Claimed(job("j9", "u", "processing")));
    assert!(matches!(&a, WorkerAction::LoadFile { file_id } if file_id == "file-of-j9"));
    let (p, a) = decide_worker_step(p, WorkerEvent::FileFound("uploads/x.mp3".to_string()));
    assert!(matches!(&a, WorkerAction::Analyze { path } if path == "uploads/x.mp3"));
    let (p, a) = decide_worker_step(p, WorkerEvent::Analyzed);
    assert!(matches!(&a, WorkerAction::SaveAnalysis { file_id } if file_id == "file-of-j9"));
    let (p, a) = decide_worker_step(p, WorkerEvent::Saved);
    assert!(matches!(&a, WorkerAction::FinishJob { job_id, status: JobStatus::Completed, error: None } if job_id == "j9"));
    assert!(matches!(p, WorkerPhase::Idle));
}

#[test]
fn worker_failures_are_recorded() {
    let p = WorkerPhase::LoadingFile { job: job("a", "u", "processing") };
    let (p, a) = decide_worker_step(p, WorkerEvent::FileMissing);
    assert!(matches!(p, WorkerPhase::Idle));
    assert!(matches!(&a, WorkerAction::FinishJob { job_id, status: JobStatus::Failed, error: Some(e) }
        if job_id == "a" && e == "File not found"));

    let p = WorkerPhase::Analyzing { job: job("b", "u", "processing") };
    let (_, a) = decide_worker_step(p, WorkerEvent::AnalysisFailed("No onsets detected".to_string()));
    assert!(matches!(&a, WorkerAction::FailFileAndJob { file_id, job_id, reason }
        if file_id == "file-of-b" && job_id == "b" && reason == "No onsets detected"));

    let p = WorkerPhase::Analyzing { job: job("c", "u", "processing") };
    let (_, a) = decide_worker_step(p, WorkerEvent::AnalysisPanicked);
    assert!(matches!(&a, WorkerAction::FailFileAndJob { reason, .. } if reason == "Thread panic"));

    let p = WorkerPhase::Saving { job: job("d", "u", "processing") };
    let (_, a) = decide_worker_step(p, WorkerEvent::SaveFailed("database is locked".to_string()));
    assert!(matches!(&a, WorkerAction::FinishJob { job_id, status: JobStatus::Failed, error: Some(e) }
        if job_id == "d" && e == "DB save error: database is locked"));
}

#[test]
fn worker_idles_without_work_and_stops_on_cancel() {
    let (p, a) = decide_worker_step(WorkerPhase::Claiming, WorkerEvent::NothingPending);
    assert!(matches!(p, WorkerPhase::Idle) && matches!(a, WorkerAction::WaitForWork));
    let (p, a) = decide_worker_step(WorkerPhase::Claiming, WorkerEvent::ClaimFailed("busy".to_string()));
    assert!(matches!(p, WorkerPhase::Idle) && matches!(a, WorkerAction::WaitForWork));
    let (p, a) = decide_worker_step(WorkerPhase::Idle, WorkerEvent::Cancelled);
    assert!(matches!(p, WorkerPhase::Stopped) && matches!(a, WorkerAction::Stop));
}
