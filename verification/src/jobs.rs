use vstd::prelude::*;
use crate::text::text_eq;

verus! {

/// Where an analysis job stands.
#[derive(PartialEq, Eq, Structural, Clone, Copy, Debug)]
pub enum JobStatus {
    Pending,
    Processing,
    Completed,
    Failed,
}

/// The text stored in the database for each job status.
pub open spec fn status_text(s: JobStatus) -> Seq<char> {
    match s {
        JobStatus::Pending => "pending"@,
        JobStatus::Processing => "processing"@,
        JobStatus::Completed => "completed"@,
        JobStatus::Failed => "failed"@,
    }
}

impl JobStatus {
    /// The text stored in the database for this status.
    pub fn as_str(&self) -> (r: &'static str)
        ensures
            r@ == status_text(*self),
    {
        match self {
            JobStatus::Pending => "pending",
            JobStatus::Processing => "processing",
            JobStatus::Completed => "completed",
            JobStatus::Failed => "failed",
        }
    }

    /// Reads a status back from its stored text.
    pub fn from_text(s: &str) -> (r: Option<JobStatus>)
        ensures
            r matches Some(st) ==> status_text(st) == s@,
            r is None ==> forall|st: JobStatus| status_text(st) != s@,
    {
        if text_eq(s, "pending") {
            Some(JobStatus::Pending)
        } else if text_eq(s, "processing") {
            Some(JobStatus::Processing)
        } else if text_eq(s, "completed") {
            Some(JobStatus::Completed)
        } else if text_eq(s, "failed") {
            Some(JobStatus::Failed)
        } else {
            proof {
                assert forall|st: JobStatus| status_text(st) != s@ by {
                    match st {
                        JobStatus::Pending => {},
                        JobStatus::Processing => {},
                        JobStatus::Completed => {},
                        JobStatus::Failed => {},
                    }
                }
            }
            None
        }
    }
}

/// Distinct statuses are stored as distinct texts, so reading the stored
/// text of a status gives that status back.
pub proof fn lemma_status_text_injective(a: JobStatus, b: JobStatus)
    ensures
        status_text(a) == status_text(b) ==> a == b,
{
    reveal_strlit("pending");
    reveal_strlit("processing");
    reveal_strlit("completed");
    reveal_strlit("failed");
    if status_text(a) == status_text(b) && a != b {
        match (a, b) {
            (JobStatus::Pending, JobStatus::Processing) => assert(status_text(a)[1] != status_text(b)[1]),
            (JobStatus::Pending, JobStatus::Completed) => assert(status_text(a)[0] != status_text(b)[0]),
            (JobStatus::Pending, JobStatus::Failed) => assert(status_text(a)[0] != status_text(b)[0]),
            (JobStatus::Processing, JobStatus::Pending) => assert(status_text(a)[1] != status_text(b)[1]),
            (JobStatus::Processing, JobStatus::Completed) => assert(status_text(a)[0] != status_text(b)[0]),
            (JobStatus::Processing, JobStatus::Failed) => assert(status_text(a)[0] != status_text(b)[0]),
            (JobStatus::Completed, JobStatus::Pending) => assert(status_text(a)[0] != status_text(b)[0]),
            (JobStatus::Completed, JobStatus::Processing) => assert(status_text(a)[0] != status_text(b)[0]),
            (JobStatus::Completed, JobStatus::Failed) => assert(status_text(a)[0] != status_text(b)[0]),
            (JobStatus::Failed, JobStatus::Pending) => assert(status_text(a)[0] != status_text(b)[0]),
            (JobStatus::Failed, JobStatus::Processing) => assert(status_text(a)[0] != status_text(b)[0]),
            (JobStatus::Failed, JobStatus::Completed) => assert(status_text(a)[0] != status_text(b)[0]),
            _ => {},
        }
    }
}

/// A background analysis job as stored in the `jobs` table.
pub struct Job {
    pub id: String,
    pub audio_file_id: String,
    pub user_id: String,
    pub status: String,
    pub error_message: Option<String>,
}

impl Job {
    /// Whether the job's analysis result is ready to be shown.
    pub fn is_completed(&self) -> (r: bool)
        ensures
            r == (self.status@ == "completed"@),
    {
        text_eq(self.status.as_str(), "completed")
    }
}

/// Query parameters of a job status request.
pub struct JobQueryParams {
    pub job_id: String,
}

/// What looking a job up by its id gave.
pub enum JobLookup {
    Found(Job),
    Missing,
    Failed(String),
}

/// Why a job status request is refused.
#[derive(Debug)]
pub enum JobStatusError {
    NotFound,
    Database(String),
    Forbidden,
}

impl JobStatusError {
    /// The HTTP status code of the refusal.
    pub fn status_code(&self) -> (r: u16)
        ensures
            r == match self {
                JobStatusError::NotFound => 404u16,
                JobStatusError::Database(_) => 500u16,
                JobStatusError::Forbidden => 403u16,
            },
    {
        match self {
            JobStatusError::NotFound => 404,
            JobStatusError::Database(_) => 500,
            JobStatusError::Forbidden => 403,
        }
    }

    /// The `error` text of the refusal.
    pub fn error_text(&self) -> (r: &'static str)
        ensures
            r@ == match self {
                JobStatusError::NotFound => "Job not found"@,
                JobStatusError::Database(_) => "Database error"@,
                JobStatusError::Forbidden => "Access denied"@,
            },
    {
        match self {
            JobStatusError::NotFound => "Job not found",
            JobStatusError::Database(_) => "Database error",
            JobStatusError::Forbidden => "Access denied",
        }
    }
}

/// Decides whether `requester_id` may see the job that a lookup found:
/// a missing job is not found, a failed lookup is a database error, and a
/// job owned by someone else is forbidden.
pub fn authorize_job_view(lookup: JobLookup, requester_id: &str) -> (r: Result<Job, JobStatusError>)
    ensures
        match lookup {
            JobLookup::Missing => r == Err::<Job, JobStatusError>(JobStatusError::NotFound),
            JobLookup::Failed(d) => r matches Err(JobStatusError::Database(d2)) && d2@ == d@,
            JobLookup::Found(job) => if job.user_id@ == requester_id@ {
                r matches Ok(j) && j == job
            } else {
                r == Err::<Job, JobStatusError>(JobStatusError::Forbidden)
            },
        },
{
    match lookup {
        JobLookup::Missing => Err(JobStatusError::NotFound),
        JobLookup::Failed(d) => Err(JobStatusError::Database(d)),
        JobLookup::Found(job) => {
            if text_eq(job.user_id.as_str(), requester_id) {
                Ok(job)
            } else {
                Err(JobStatusError::Forbidden)
            }
        },
    }
}

} // verus!
