//! User-facing control values: job references, statuses and the errors
//! the control channel can return.

use vstd::prelude::*;

verus! {

/// The outcome of a job as shown to the user.
///
/// `Pending` and `Running` mirror the stored states `Submitted` and
/// `Started`; a stored `Completed` splits into `Completed` and
/// `Incorrect` by the recorded test result.
#[derive(Debug, Clone, Copy, PartialEq, Eq, Structural)]
pub enum JobResult {
    Pending,
    Running,
    Completed,
    Incorrect,
    Error,
    Canceled,
    Timeout,
}

impl JobResult {
    /// A result is settled when the job can no longer change.
    pub open spec fn is_terminal(self) -> bool {
        !(self is Pending || self is Running)
    }
}

/// Errors surfaced verbatim to the control client.
#[derive(Debug, Clone)]
pub enum CtlError {
    /// Returned only for admin commands, never for a missing resource.
    PermissionDenied,
    NotFound(String),
    InternalError(String),
    NotImplemented,
}

/// A submission as carried by the control channel's `submit` call.
#[derive(Debug, Clone)]
pub struct Submission {
    pub commit: String,
    pub spec: String,
}

/// Names one job of the calling user: the script pair plus the job id.
#[derive(Debug, Clone)]
pub struct JobReference {
    pub job_spec: String,
    pub job_id: u128,
}

/// One row of a status or history answer.
#[derive(Debug, Clone)]
pub struct JobStatus {
    pub job_spec: String,
    pub job_id: u128,
    pub result: JobResult,
}

} // verus!
