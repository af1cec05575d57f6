//! The coordinator side of the runner link: handing out jobs, recording
//! termination reports, and answering cancellation reconciliation.

use vstd::prelude::*;
use vstd::string::StringExecFns;

use crate::proto::{JobResponse, JobSpec, JobTermination, LOG_LIMIT};
use crate::store::{
    DispatchedJob, JobState, Store, TestResult, dequeue_post, has_submitted, states_monotone,
    terminate_post,
};

verus! {

/// The repository path synthesized for a dispatched job:
/// `<home prefix>/<owner name>/<repo subpath>`.
pub open spec fn repo_path_spec(home: Seq<char>, name: Seq<char>, sub: Seq<char>) -> Seq<char> {
    home + "/"@ + name + "/"@ + sub
}

/// Builds the repository path for a dispatched job.
pub fn repo_path_for(home: &String, name: &String, sub: &String) -> (r: String)
    ensures
        r@ == repo_path_spec(home@, name@, sub@),
{
    let mut s = home.clone();
    s.append("/");
    s.append(name.as_str());
    s.append("/");
    s.append(sub.as_str());
    proof {
        assert(s@ =~= repo_path_spec(home@, name@, sub@));
    }
    s
}

/// Everything `request_job` promises: `Unavailable` exactly when no job
/// is submitted, and otherwise the FIFO dequeue result, with the
/// repository path synthesized from the owner's name.
pub open spec fn request_job_post(
    pre: Store,
    post: Store,
    now: u64,
    home: Seq<char>,
    sub: Seq<char>,
    r: JobResponse,
) -> bool {
    if !has_submitted(pre.jobs@) {
        &&& post.users@ == pre.users@
        &&& post.job_types@ == pre.job_types@
        &&& post.jobs@ == pre.jobs@
        &&& r is Unavailable
    } else {
        exists|d: DispatchedJob|
            #![auto]
            dequeue_post(pre, post, now, Some(d)) && (r matches JobResponse::Job(js) && js.id
                == d.job_id && js.commit_hash == d.commit && js.job_spec == d.job_spec
                && js.repo_path@ == repo_path_spec(home, d.user_name@, sub))
    }
}

/// Answers a runner's request for work: dequeues the oldest submitted
/// job, marks it `Started` at `now`, and hands out its dispatchable
/// fields with the synthesized repository path.
pub fn request_job(store: &mut Store, now: u64, home: &String, sub: &String) -> (r: JobResponse)
    requires
        old(store).wf(),
    ensures
        final(store).wf(),
        request_job_post(*old(store), *final(store), now, home@, sub@, r),
        states_monotone(old(store).jobs@, final(store).jobs@),
{
    match store.dequeue_one(now) {
        None => JobResponse::Unavailable,
        Some(d) => {
            let repo_path = repo_path_for(home, &d.user_name, sub);
            JobResponse::Job(
                JobSpec {
                    id: d.job_id,
                    repo_path,
                    commit_hash: d.commit,
                    job_spec: d.job_spec,
                },
            )
        },
    }
}

/// The stored state a runner-reported result maps to.
pub open spec fn state_for_result(r: crate::proto::JobResult) -> JobState {
    match r {
        crate::proto::JobResult::Correct => JobState::Completed,
        crate::proto::JobResult::Incorrect => JobState::Completed,
        crate::proto::JobResult::Error => JobState::Error,
        crate::proto::JobResult::Canceled => JobState::Canceled,
        crate::proto::JobResult::Timeout => JobState::Timeout,
    }
}

/// The stored test verdict a runner-reported result maps to.
pub open spec fn verdict_for_result(r: crate::proto::JobResult) -> Option<TestResult> {
    match r {
        crate::proto::JobResult::Correct => Some(TestResult::Correct),
        crate::proto::JobResult::Incorrect => Some(TestResult::Incorrect),
        _ => None,
    }
}

/// A reported log as stored: bounded to [`LOG_LIMIT`] bytes.
pub open spec fn clamped_bytes(b: Seq<u8>) -> Seq<u8> {
    if b.len() > LOG_LIMIT {
        b.take(LOG_LIMIT as int)
    } else {
        b
    }
}

/// Everything `job_stopped` promises: the report's result is mapped to
/// its terminal state and verdict, its log is bounded and recorded, and
/// the store reflects that terminal state once the call returns.
pub open spec fn job_stopped_post(
    pre: Store,
    post: Store,
    t: JobTermination,
    now: u64,
    r: bool,
) -> bool {
    exists|stored: crate::proto::Log|
        #![auto]
        stored.log@ == clamped_bytes(t.log.log@) && stored.truncated == (t.log.truncated
            || t.log.log@.len() > LOG_LIMIT) && terminate_post(
            pre,
            post,
            t.job_id,
            state_for_result(t.result),
            stored,
            verdict_for_result(t.result),
            now,
            r,
        )
}

/// Records a runner's termination report: maps the reported result to a
/// terminal state and verdict, bounds the log, and terminates the job
/// at `now`. Returns whether the job was found.
pub fn job_stopped(store: &mut Store, t: JobTermination, now: u64) -> (r: bool)
    requires
        old(store).wf(),
    ensures
        final(store).wf(),
        job_stopped_post(*old(store), *final(store), t, now, r),
        states_monotone(old(store).jobs@, final(store).jobs@),
{
    let JobTermination { job_id, log, result, now: _reported } = t;
    let new_state = match result {
        crate::proto::JobResult::Correct => JobState::Completed,
        crate::proto::JobResult::Incorrect => JobState::Completed,
        crate::proto::JobResult::Error => JobState::Error,
        crate::proto::JobResult::Canceled => JobState::Canceled,
        crate::proto::JobResult::Timeout => JobState::Timeout,
    };
    let test_result = match result {
        crate::proto::JobResult::Correct => Some(TestResult::Correct),
        crate::proto::JobResult::Incorrect => Some(TestResult::Incorrect),
        _ => None,
    };
    let stored = log.clamped();
    store.terminate(job_id, new_state, stored, test_result, now)
}

/// Answers a runner's reconciliation call: of the jobs the runner
/// believes it is running, exactly those now in a terminal state.
pub fn request_cancellation_notifications(store: &Store, currently_running: &Vec<u128>) -> (r: Vec<
    u128,
>)
    requires
        store.wf(),
    ensures
        r@ == currently_running@.filter(
            |id: u128| crate::store::terminal_in(store.jobs@, id),
        ),
{
    store.terminated_subset(currently_running)
}

/// Relies on `rand::random`: a fresh 128-bit value from the thread
/// RNG. Nothing is promised of the value; callers check collisions.
#[verifier::external_body]
pub(crate) fn fresh_job_id() -> u128 {
    rand::random()
}

} // verus!
