//! What the background job runner does with the job it is handed.
use vstd::prelude::*;

use crate::domain::job::{not_implemented_result, Job, JobResult, JobStatus};
use crate::text::concat;

verus! {

/// What asking the store for the next pending job gave.
#[derive(Debug, Clone)]
pub enum NextJob {
    /// A pending job was claimed (it is now running).
    Claimed(Job),
    /// No job is pending.
    NoneWaiting,
    /// The store failed (the reason).
    Failed(String),
}

/// What the runner does next.
#[derive(Debug, Clone)]
pub enum RunnerStep {
    /// Nothing to do until the next tick.
    Idle,
    /// Record this outcome for the claimed job.
    Record(JobResult),
    /// Report this failure.
    Report(String),
}

/// The runner's decision for one tick: a claimed job gets the outcome of an
/// unimplemented job recorded, an empty queue is no work, and a store
/// failure is reported.
pub fn runner_step(next: NextJob) -> (step: RunnerStep)
    ensures
        match next {
            NextJob::Claimed(job) => step matches RunnerStep::Record(r) && {
                &&& r.id@ == job.id_spec()
                &&& r.status == JobStatus::Failed
                &&& r.error_code matches Some(code) && code@ == "NOT_IMPLEMENTED"@
                &&& r.error_detail matches Some(detail) && detail@ == "Under construction"@
            },
            NextJob::NoneWaiting => step is Idle,
            NextJob::Failed(reason) => step matches RunnerStep::Report(m) && m@
                == "failed to get next job: "@ + reason@,
        },
{
    match next {
        NextJob::Claimed(job) => RunnerStep::Record(not_implemented_result(&job)),
        NextJob::NoneWaiting => RunnerStep::Idle,
        NextJob::Failed(reason) => RunnerStep::Report(
            concat("failed to get next job: ", reason.as_str()),
        ),
    }
}

} // verus!
