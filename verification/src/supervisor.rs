//! Runner-side supervision decisions: how the outcome of the run and
//! cleanup scripts, timeouts and cancellation turn into exactly one
//! termination report with a bounded log.

use vstd::prelude::*;
use vstd::string::StringExecFns;

use crate::proto::{JobResult, JobSpec, JobTermination, LOG_LIMIT, Log};

verus! {

/// Run-script timeout, in milliseconds.
pub const RUN_TIMEOUT_MILLIS: u64 = 120000;

/// Cleanup-script timeout, in milliseconds.
pub const CLEANUP_TIMEOUT_MILLIS: u64 = 45000;

/// What ended the wait on the run script, in the supervisor's priority
/// order: the timeout fires first, then cancellation, then child exit.
#[derive(Debug, Clone, Copy, PartialEq, Eq, Structural)]
pub enum RunEvent {
    /// The run timeout elapsed; the child was killed.
    TimedOut,
    /// The cancel signal fired; the child was killed.
    Canceled,
    /// The child exited with this code.
    Exited(i32),
    /// The child ended without an exit code (killed by a signal).
    Signaled,
    /// Waiting for the child failed.
    WaitFailed,
}

/// What ended the wait on the cleanup script.
#[derive(Debug, Clone, Copy, PartialEq, Eq, Structural)]
pub enum CleanupEvent {
    /// The cleanup timeout elapsed; the child was killed and the run
    /// result stands.
    TimedOut,
    /// The cleanup child exited with this code.
    Exited(i32),
    /// The cleanup child ended without an exit code.
    Signaled,
    /// Waiting for the cleanup child failed.
    WaitFailed,
}

/// What one attempt to start and wait on the run script came to.
#[derive(Debug, Clone, Copy, PartialEq, Eq, Structural)]
pub enum RunPhase {
    /// The run script could not be spawned.
    SpawnFailed,
    Ran(RunEvent),
}

/// What one attempt to start and wait on the cleanup script came to.
#[derive(Debug, Clone, Copy, PartialEq, Eq, Structural)]
pub enum CleanupPhase {
    /// The cleanup script could not be spawned.
    SpawnFailed,
    Ran(CleanupEvent),
}

/// The result an exit code of the run script maps to.
pub open spec fn spec_result_of_exit_code(code: i32) -> JobResult {
    if code == 0 {
        JobResult::Correct
    } else if code == 1 {
        JobResult::Incorrect
    } else if code == 2 {
        JobResult::Error
    } else if code == 3 {
        JobResult::Canceled
    } else if code == 4 {
        JobResult::Timeout
    } else {
        JobResult::Error
    }
}

/// Maps an exit code of the run script to a result; every unrecognized
/// code is an error.
pub fn result_of_exit_code(code: i32) -> (r: JobResult)
    ensures
        r == spec_result_of_exit_code(code),
{
    match code {
        0 => JobResult::Correct,
        1 => JobResult::Incorrect,
        2 => JobResult::Error,
        3 => JobResult::Canceled,
        4 => JobResult::Timeout,
        _ => JobResult::Error,
    }
}

/// The result of the run phase alone: timeout and cancellation name
/// themselves, a clean exit maps by code, everything else is an error.
pub open spec fn spec_run_result(ev: RunEvent) -> JobResult {
    match ev {
        RunEvent::TimedOut => JobResult::Timeout,
        RunEvent::Canceled => JobResult::Canceled,
        RunEvent::Exited(code) => spec_result_of_exit_code(code),
        RunEvent::Signaled => JobResult::Error,
        RunEvent::WaitFailed => JobResult::Error,
    }
}

/// The result of the run phase alone, computed.
pub fn run_result(ev: RunEvent) -> (r: JobResult)
    ensures
        r == spec_run_result(ev),
{
    match ev {
        RunEvent::TimedOut => JobResult::Timeout,
        RunEvent::Canceled => JobResult::Canceled,
        RunEvent::Exited(code) => result_of_exit_code(code),
        RunEvent::Signaled => JobResult::Error,
        RunEvent::WaitFailed => JobResult::Error,
    }
}

/// Whether the cleanup phase overrides the run result with an error: a
/// non-zero exit, death by signal, or a failed wait do; a cleanup
/// timeout does not.
pub open spec fn cleanup_failed(ev: CleanupEvent) -> bool {
    match ev {
        CleanupEvent::TimedOut => false,
        CleanupEvent::Exited(code) => code != 0,
        CleanupEvent::Signaled => true,
        CleanupEvent::WaitFailed => true,
    }
}

/// Turns what was read from the log file into the stored log: at most
/// [`LOG_LIMIT`] bytes, marked truncated exactly when the read reached
/// past the limit.
pub fn finish_log(read: Vec<u8>) -> (r: Log)
    requires
        read@.len() <= LOG_LIMIT + 1,
    ensures
        r.truncated == (read@.len() > LOG_LIMIT),
        r.log@ == if read@.len() > LOG_LIMIT {
            read@.take(LOG_LIMIT as int)
        } else {
            read@
        },
        r.wf(),
{
    let mut read = read;
    if read.len() > LOG_LIMIT {
        read.truncate(LOG_LIMIT);
        Log { log: read, truncated: true }
    } else {
        Log { log: read, truncated: false }
    }
}

/// Everything `job_termination` promises, case by case in the
/// supervisor's order: a spawn failure in either phase or a failed
/// cleanup reports an error with an empty untruncated log; otherwise
/// the run result stands and the log read from the file is stored,
/// bounded, an unreadable log file standing as empty and truncated.
pub open spec fn termination_post(
    job_id: u128,
    run: RunPhase,
    cleanup: CleanupPhase,
    log_read: Option<Vec<u8>>,
    now: u64,
    t: JobTermination,
) -> bool {
    &&& t.job_id == job_id
    &&& t.now == now
    &&& match run {
        RunPhase::SpawnFailed => t.result == JobResult::Error && t.log.log@.len() == 0
            && !t.log.truncated,
        RunPhase::Ran(run_ev) => match cleanup {
            CleanupPhase::SpawnFailed => t.result == JobResult::Error && t.log.log@.len() == 0
                && !t.log.truncated,
            CleanupPhase::Ran(cleanup_ev) => if cleanup_failed(cleanup_ev) {
                t.result == JobResult::Error && t.log.log@.len() == 0 && !t.log.truncated
            } else {
                &&& t.result == spec_run_result(run_ev)
                &&& match log_read {
                    Option::Some(read) => t.log.truncated == (read@.len() > LOG_LIMIT)
                        && t.log.log@ == crate::coordinator::clamped_bytes(read@),
                    Option::None => t.log.log@.len() == 0 && t.log.truncated,
                }
            },
        },
    }
}

/// Builds the one termination report a supervised job emits, from what
/// happened in its run phase, its cleanup phase, and the log read.
/// `log_read` is the first up-to-`LOG_LIMIT + 1` bytes of the log file,
/// or `None` when reading it failed.
pub fn job_termination(
    job_id: u128,
    run: RunPhase,
    cleanup: CleanupPhase,
    log_read: Option<Vec<u8>>,
    now: u64,
) -> (t: JobTermination)
    requires
        log_read matches Some(read) ==> read@.len() <= LOG_LIMIT + 1,
    ensures
        termination_post(job_id, run, cleanup, log_read, now, t),
        t.log.wf(),
{
    let run_ev = match run {
        RunPhase::SpawnFailed => {
            return JobTermination { job_id, log: Log::empty(false), result: JobResult::Error, now };
        },
        RunPhase::Ran(ev) => ev,
    };
    let cleanup_ev = match cleanup {
        CleanupPhase::SpawnFailed => {
            return JobTermination { job_id, log: Log::empty(false), result: JobResult::Error, now };
        },
        CleanupPhase::Ran(ev) => ev,
    };
    let failed = match cleanup_ev {
        CleanupEvent::TimedOut => false,
        CleanupEvent::Exited(code) => code != 0,
        CleanupEvent::Signaled => true,
        CleanupEvent::WaitFailed => true,
    };
    if failed {
        return JobTermination { job_id, log: Log::empty(false), result: JobResult::Error, now };
    }
    let log = match log_read {
        Some(read) => finish_log(read),
        None => Log::empty(true),
    };
    JobTermination { job_id, log, result: run_result(run_ev), now }
}

/// The eight positional arguments the run and cleanup scripts receive:
/// the worker and job ids in hyphenated form, the repository path, the
/// commit hash, the log file path, the serial device path, the last
/// USB port on its own, and the bus joined by a dash to the dot-joined
/// prefix ports. A bound device always has at least one port.
pub fn script_args(
    worker_id: u128,
    spec: &JobSpec,
    logfile: &String,
    device: &crate::device::DeviceCtl,
) -> (r: Vec<String>)
    requires
        device.ports@.len() > 0,
    ensures
        r@.len() == 8,
        r@[0]@ == crate::text::uuid_hyphenated(worker_id),
        r@[1]@ == crate::text::uuid_hyphenated(spec.id),
        r@[2]@ == spec.repo_path@,
        r@[3]@ == spec.commit_hash@,
        r@[4]@ == logfile@,
        r@[5]@ == device.serial@,
        r@[6]@ == crate::text::dec_seq(device.ports@.last() as nat),
        r@[7]@ == crate::text::dec_seq(device.bus as nat) + "-"@ + crate::device::ports_display(
            device.ports@.drop_last(),
        ),
{
    let mut args: Vec<String> = Vec::new();
    args.push(crate::text::uuid_string(worker_id));
    args.push(crate::text::uuid_string(spec.id));
    args.push(spec.repo_path.clone());
    args.push(spec.commit_hash.clone());
    args.push(logfile.clone());
    args.push(device.serial.clone());
    let last = device.ports[device.ports.len() - 1];
    args.push(crate::text::dec_u64(last as u64));
    let mut position = crate::text::dec_u64(device.bus as u64);
    position.append("-");
    let prefix = crate::device::ports_prefix_string(&device.ports, device.ports.len() - 1);
    position.append(prefix.as_str());
    proof {
        assert(device.ports@.take(device.ports@.len() - 1) =~= device.ports@.drop_last());
        assert(position@ =~= crate::text::dec_seq(device.bus as nat) + "-"@
            + crate::device::ports_display(device.ports@.drop_last()));
    }
    args.push(position);
    args
}

} // verus!
