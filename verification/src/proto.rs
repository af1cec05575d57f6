//! Runner-link protocol values: what a runner receives from the
//! coordinator and what it reports back.

use vstd::prelude::*;

verus! {

/// Upper bound, in bytes, on the log stored with a finished job.
pub const LOG_LIMIT: usize = 65536;

/// Outcome a runner reports for one supervised job.
#[derive(Debug, Clone, Copy, PartialEq, Eq, Structural)]
pub enum JobResult {
    Correct,
    Incorrect,
    Error,
    Canceled,
    Timeout,
}

/// Bounded run log captured from a job's log file.
///
/// `truncated` records whether bytes of the source were discarded.
#[derive(Debug)]
pub struct Log {
    pub log: Vec<u8>,
    pub truncated: bool,
}

impl Clone for Log {
    fn clone(&self) -> (r: Self)
        ensures
            r.log@ == self.log@,
            r.truncated == self.truncated,
    {
        let log = self.log.clone();
        proof {
            assert(log@ =~= self.log@);
        }
        Log { log, truncated: self.truncated }
    }
}

impl Log {
    /// A stored log never exceeds [`LOG_LIMIT`] bytes.
    pub open spec fn wf(self) -> bool {
        self.log@.len() <= LOG_LIMIT
    }

    /// Bounds a log to [`LOG_LIMIT`] bytes, marking it truncated when
    /// bytes are discarded.
    pub fn clamped(self) -> (r: Log)
        ensures
            r.log@ == if self.log@.len() > LOG_LIMIT {
                self.log@.take(LOG_LIMIT as int)
            } else {
                self.log@
            },
            r.truncated == (self.truncated || self.log@.len() > LOG_LIMIT),
            r.wf(),
    {
        let Log { mut log, truncated } = self;
        if log.len() > LOG_LIMIT {
            log.truncate(LOG_LIMIT);
            Log { log, truncated: true }
        } else {
            Log { log, truncated }
        }
    }

    /// An empty log, used when a job never produced one.
    pub fn empty(truncated: bool) -> (r: Log)
        ensures
            r.log@ == Seq::<u8>::empty(),
            r.truncated == truncated,
            r.wf(),
    {
        Log { log: Vec::new(), truncated }
    }
}

/// The dispatchable fields of one job, as handed to a runner.
#[derive(Debug, Clone)]
pub struct JobSpec {
    /// Job ID.
    pub id: u128,
    /// Path to the repository on the runner's host.
    pub repo_path: String,
    /// Commit hash to build.
    pub commit_hash: String,
    /// Name of the run/cleanup script pair.
    pub job_spec: String,
}

/// Answer to a runner's request for work.
#[derive(Debug, Clone)]
pub enum JobResponse {
    Job(JobSpec),
    Unavailable,
}

/// One report that a supervised job stopped, sent exactly once per
/// accepted job.
#[derive(Debug, Clone)]
pub struct JobTermination {
    pub job_id: u128,
    pub log: Log,
    pub result: JobResult,
    /// Milliseconds since the epoch at the moment the runner reported.
    pub now: u64,
}

} // verus!
