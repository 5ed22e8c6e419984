//! Background work enqueued by the API, and its outcome.
use vstd::prelude::*;

verus! {

/// Background work enqueued by the API.
#[derive(Debug, Clone)]
pub enum Job {
    /// Create a new release from a milestone tag (and optional RC).
    CreateRelease { id: String, milestone: String, candidate: bool, description: Option<String> },
    /// Delete an existing candidate release by GitHub tag.
    DeleteRelease { id: String, tag: String },
}

impl Job {
    /// The identifier of a job.
    pub open spec fn id_spec(&self) -> Seq<char> {
        match self {
            Job::CreateRelease { id, .. } => id@,
            Job::DeleteRelease { id, .. } => id@,
        }
    }
}

/// Anything that carries a job identifier.
pub trait AnyJob {
    fn id(&self) -> String;
}

impl AnyJob for Job {
    /// The identifier of this job.
    fn id(&self) -> (r: String)
        ensures
            r@ == self.id_spec(),
    {
        match self {
            Job::CreateRelease { id, .. } => id.clone(),
            Job::DeleteRelease { id, .. } => id.clone(),
        }
    }
}

/// Lifecycle state of a persisted job.
#[derive(Debug, Clone, Copy, PartialEq, Eq, Structural)]
pub enum JobStatus {
    Pending,
    Running,
    /// Finished without error (the API reports it as `Ok`).
    Succeeded,
    Failed,
}

/// Snapshot of a job returned by the store after creation or lookup.
#[derive(Debug, Clone)]
pub struct JobResult {
    pub id: String,
    pub status: JobStatus,
    pub error_code: Option<String>,
    pub error_detail: Option<String>,
}

/// The outcome the job runner records for a job it took: creating and
/// deleting releases are not implemented yet, so every job fails with the
/// code `NOT_IMPLEMENTED` and the detail `Under construction`.
pub fn not_implemented_result(job: &Job) -> (r: JobResult)
    ensures
        r.id@ == job.id_spec(),
        r.status == JobStatus::Failed,
        r.error_code matches Some(code) && code@ == "NOT_IMPLEMENTED"@,
        r.error_detail matches Some(detail) && detail@ == "Under construction"@,
{
    JobResult {
        id: job.id(),
        status: JobStatus::Failed,
        error_code: Some(String::from_str("NOT_IMPLEMENTED")),
        error_detail: Some(String::from_str("Under construction")),
    }
}

} // verus!
