//! The JSON shape of a job.
use vstd::prelude::*;

verus! {

/// The status of a job as the API reports it.
#[derive(Debug, Clone, Copy, PartialEq, Eq, Structural)]
pub enum JobStatusDto {
    Pending,
    Running,
    /// Finished without error (written `Ok` on the wire).
    Succeeded,
    Failed,
}

/// A job as the API reports it.
#[derive(Debug, Clone)]
pub struct JobDto {
    pub id: String,
    pub status: JobStatusDto,
    pub error_code: Option<String>,
    pub error_detail: Option<String>,
}

} // verus!
