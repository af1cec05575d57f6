//! The persistent job store: an ordered, transactional record of users,
//! job types and jobs, with atomic state transitions, quota counting,
//! history queries and FIFO dequeue of submitted jobs.

use vstd::prelude::*;
use vstd::string::StringExecFns;

use crate::proto::Log;
use crate::ctl::{CtlError, JobReference, JobResult, JobStatus};

verus! {

/// Milliseconds in the rolling window of the per-hour submission quota.
pub const HOUR_MILLIS: u64 = 3600000;

/// Lifecycle state of a stored job.
///
/// `Submitted` and `Started` are live; the other four are terminal
/// sinks, entered at most once.
#[derive(Debug, Clone, Copy, PartialEq, Eq, Structural)]
pub enum JobState {
    Submitted,
    Started,
    Completed,
    Canceled,
    Error,
    Timeout,
}

impl JobState {
    /// Whether this state is a sink: no update may leave it.
    pub open spec fn spec_terminal(self) -> bool {
        !(self is Submitted || self is Started)
    }

    /// Position of this state along `Submitted -> Started -> terminal`.
    pub open spec fn rank(self) -> int {
        if self is Submitted {
            0
        } else if self is Started {
            1
        } else {
            2
        }
    }

    /// Whether this state is terminal.
    pub fn is_terminal(&self) -> (r: bool)
        ensures
            r == self.spec_terminal(),
    {
        match self {
            JobState::Submitted | JobState::Started => false,
            _ => true,
        }
    }
}

/// The state-only view of a row as a user-facing result: live states
/// show as pending and running; a completed state shows undistinguished
/// as completed (the stored test verdict splits it, see
/// [`Job::spec_result`]).
impl From<JobState> for JobResult {
    fn from(state: JobState) -> (r: Self) {
        match state {
            JobState::Submitted => JobResult::Pending,
            JobState::Started => JobResult::Running,
            JobState::Completed => JobResult::Completed,
            JobState::Canceled => JobResult::Canceled,
            JobState::Error => JobResult::Error,
            JobState::Timeout => JobResult::Timeout,
        }
    }
}

impl vstd::std_specs::convert::FromSpecImpl<JobState> for JobResult {
    open spec fn obeys_from_spec() -> bool {
        true
    }

    open spec fn from_spec(state: JobState) -> Self {
        match state {
            JobState::Submitted => JobResult::Pending,
            JobState::Started => JobResult::Running,
            JobState::Completed => JobResult::Completed,
            JobState::Canceled => JobResult::Canceled,
            JobState::Error => JobResult::Error,
            JobState::Timeout => JobResult::Timeout,
        }
    }
}

/// A single state update a job row may undergo: either nothing changes,
/// or the state moves strictly forward along the lifecycle. A terminal
/// state has nowhere further to move, so it can only stay.
pub open spec fn state_step_ok(pre: JobState, post: JobState) -> bool {
    post == pre || pre.rank() < post.rank()
}

/// Recorded verdict of a completed job's test.
#[derive(Debug, Clone, Copy, PartialEq, Eq, Structural)]
pub enum TestResult {
    Correct,
    Incorrect,
}

/// One row of the users table.
#[derive(Debug)]
pub struct SqlUser {
    pub id: u128,
    pub name: String,
}

impl Clone for SqlUser {
    fn clone(&self) -> (r: Self)
        ensures
            r == *self,
    {
        SqlUser { id: self.id, name: self.name.clone() }
    }
}

impl SqlUser {
    /// The identity as logged: `<name>#<id>`.
    pub fn display(&self) -> (r: String)
        ensures
            r@ == self.name@ + "#"@ + crate::text::uuid_hyphenated(self.id),
    {
        let mut s = self.name.clone();
        s.append("#");
        let id = crate::text::uuid_string(self.id);
        s.append(id.as_str());
        proof {
            assert(s@ =~= self.name@ + "#"@ + crate::text::uuid_hyphenated(self.id));
        }
        s
    }
}

/// A named, immutable job type: `spec` names the run/cleanup script pair.
#[derive(Debug)]
pub struct JobType {
    pub id: u128,
    pub spec: String,
}

impl Clone for JobType {
    fn clone(&self) -> (r: Self)
        ensures
            r == *self,
    {
        JobType { id: self.id, spec: self.spec.clone() }
    }
}

/// One job row. Timestamps are milliseconds since the epoch.
#[derive(Debug)]
pub struct Job {
    pub id: u128,
    pub owner: u128,
    pub job_type: u128,
    pub commit: String,
    pub state: JobState,
    pub submit_ts: u64,
    pub start_ts: Option<u64>,
    pub stop_ts: Option<u64>,
    pub run_log: Option<Log>,
    pub test_result: Option<TestResult>,
}

impl Job {
    /// Consistency of one row: timestamps and optional columns agree
    /// with the state, and a stored log is bounded.
    pub open spec fn wf(self) -> bool {
        &&& (self.state is Submitted ==> self.start_ts is None && self.stop_ts is None
            && self.run_log is None && self.test_result is None)
        &&& (self.state is Started ==> self.start_ts is Some && self.stop_ts is None
            && self.run_log is None && self.test_result is None)
        &&& (self.state.spec_terminal() ==> self.stop_ts is Some)
        &&& (self.test_result is Some ==> self.state is Completed)
        &&& (self.run_log is Some ==> self.run_log->Some_0.wf())
    }

    /// The user-facing result of this row: live states show as
    /// `Pending`/`Running`; a completed job splits by its test result.
    pub open spec fn spec_result(self) -> JobResult {
        match self.state {
            JobState::Submitted => JobResult::Pending,
            JobState::Started => JobResult::Running,
            JobState::Completed => if self.test_result == Some(TestResult::Incorrect) {
                JobResult::Incorrect
            } else {
                JobResult::Completed
            },
            JobState::Canceled => JobResult::Canceled,
            JobState::Error => JobResult::Error,
            JobState::Timeout => JobResult::Timeout,
        }
    }

    /// The user-facing result, computed.
    pub fn result(&self) -> (r: JobResult)
        ensures
            r == self.spec_result(),
    {
        match self.state {
            JobState::Submitted => JobResult::Pending,
            JobState::Started => JobResult::Running,
            JobState::Completed => match self.test_result {
                Some(TestResult::Incorrect) => JobResult::Incorrect,
                _ => JobResult::Completed,
            },
            JobState::Canceled => JobResult::Canceled,
            JobState::Error => JobResult::Error,
            JobState::Timeout => JobResult::Timeout,
        }
    }
}

/// FIFO dispatch order: by submission time, ties broken by job id.
pub open spec fn earlier_submitted(a: Job, b: Job) -> bool {
    a.submit_ts < b.submit_ts || (a.submit_ts == b.submit_ts && a.id <= b.id)
}

/// History order: most recent first, ties broken by job id, newest id first.
pub open spec fn later_first(a: Job, b: Job) -> bool {
    a.submit_ts > b.submit_ts || (a.submit_ts == b.submit_ts && a.id >= b.id)
}

/// Jobs counted against the concurrency quota: not yet terminal.
pub open spec fn counts_active(j: Job, user: u128) -> bool {
    j.owner == user && !j.state.spec_terminal()
}

/// Jobs counted against the rolling-hour quota: submitted within the
/// last [`HOUR_MILLIS`] milliseconds before `now`.
pub open spec fn counts_recent(j: Job, user: u128, now: u64) -> bool {
    j.owner == user && j.submit_ts + HOUR_MILLIS >= now
}

/// Number of a user's jobs that are not yet terminal.
pub open spec fn active_count(jobs: Seq<Job>, user: u128) -> nat {
    jobs.filter(|j: Job| counts_active(j, user)).len()
}

/// Number of a user's jobs submitted in the rolling hour before `now`.
pub open spec fn recent_count(jobs: Seq<Job>, user: u128, now: u64) -> nat {
    jobs.filter(|j: Job| counts_recent(j, user, now)).len()
}

/// Row-by-row lifecycle discipline between two snapshots of the jobs
/// table: rows are never removed or reordered, existing rows keep their
/// identity, and each row's state either stays or moves strictly
/// forward; in particular a terminal row never changes state again.
pub open spec fn states_monotone(pre: Seq<Job>, post: Seq<Job>) -> bool {
    &&& pre.len() <= post.len()
    &&& forall|i: int| 0 <= i < pre.len() ==> (#[trigger] post[i]).id == pre[i].id
        && state_step_ok(pre[i].state, post[i].state)
}

/// Why a submission was refused.
#[derive(Debug)]
pub enum SubmitError {
    /// Too many of the user's jobs are still active.
    Quota { active: u32, max: u32 },
    /// Too many of the user's jobs were submitted in the last hour.
    TimeQuota { count: u32, max: u32 },
    /// The store could not complete the operation.
    Internal,
    /// No job type carries the submitted spec name.
    InvalidSpec { spec: String },
}

/// Clamps a count to the width the error report carries.
pub open spec fn spec_clip_count(n: nat) -> u32 {
    if n > u32::MAX {
        u32::MAX
    } else {
        n as u32
    }
}

/// Clamps a count to the width the error report carries.
pub fn clip_count(n: usize) -> (r: u32)
    ensures
        r == spec_clip_count(n as nat),
{
    if n > u32::MAX as usize {
        u32::MAX
    } else {
        n as u32
    }
}

/// The row a fresh submission inserts.
pub open spec fn new_submitted_job(
    id: u128,
    owner: u128,
    job_type: u128,
    commit: String,
    now: u64,
) -> Job {
    Job {
        id,
        owner,
        job_type,
        commit,
        state: JobState::Submitted,
        submit_ts: now,
        start_ts: None,
        stop_ts: None,
        run_log: None,
        test_result: None,
    }
}

/// Everything `insert_submission` promises: which error comes on which
/// input, in check order, and exactly what a successful insert appends.
pub open spec fn insert_post(
    pre: Store,
    post: Store,
    user_id: u128,
    spec: Seq<char>,
    commit: String,
    new_id: u128,
    now: u64,
    max_active: u32,
    max_hour: u32,
    r: Result<u128, SubmitError>,
) -> bool {
    let active = active_count(pre.jobs@, user_id);
    let recent = recent_count(pre.jobs@, user_id, now);
    &&& post.users@ == pre.users@
    &&& post.job_types@ == pre.job_types@
    &&& if !pre.has_spec(spec) {
        &&& post.jobs@ == pre.jobs@
        &&& r matches Err(SubmitError::InvalidSpec { spec: s }) && s@ == spec
    } else if active >= max_active {
        &&& post.jobs@ == pre.jobs@
        &&& r matches Err(SubmitError::Quota { active: a, max: m }) && a == spec_clip_count(active)
            && m == max_active
    } else if recent >= max_hour {
        &&& post.jobs@ == pre.jobs@
        &&& r matches Err(SubmitError::TimeQuota { count: c, max: m }) && c == spec_clip_count(
            recent,
        ) && m == max_hour
    } else if pre.has_job(new_id) {
        &&& post.jobs@ == pre.jobs@
        &&& r matches Err(SubmitError::Internal)
    } else {
        &&& r == Ok::<u128, SubmitError>(new_id)
        &&& exists|t: int|
            0 <= t < pre.job_types@.len() && (#[trigger] pre.job_types@[t]).spec@ == spec
                && post.jobs@ == pre.jobs@.push(
                new_submitted_job(new_id, user_id, pre.job_types@[t].id, commit, now),
            )
    }
}

/// The fields handed to a runner when a job is dequeued.
#[derive(Debug)]
pub struct DispatchedJob {
    pub job_id: u128,
    pub user_name: String,
    pub job_spec: String,
    pub commit: String,
}

/// The row as rewritten when a job is dequeued: `Started`, atomically
/// stamped with its start time.
pub open spec fn job_started(j: Job, now: u64) -> Job {
    Job { state: JobState::Started, start_ts: Some(now), ..j }
}

/// Some row is still waiting to be dispatched.
pub open spec fn has_submitted(jobs: Seq<Job>) -> bool {
    exists|i: int| 0 <= i < jobs.len() && (#[trigger] jobs[i]).state is Submitted
}

/// Row `i` is the FIFO pick: submitted, and no other submitted row
/// comes earlier by submission time (ties broken by job id).
pub open spec fn dequeue_choice_ok(jobs: Seq<Job>, i: int) -> bool {
    &&& 0 <= i < jobs.len()
    &&& jobs[i].state is Submitted
    &&& forall|k: int|
        0 <= k < jobs.len() && (#[trigger] jobs[k]).state is Submitted && k != i
            ==> earlier_submitted(jobs[i], jobs[k])
}

/// The dispatched fields repeat the chosen row: its id and commit, its
/// owner's name and its type's spec name.
pub open spec fn dispatched_matches(s: Store, j: Job, d: DispatchedJob) -> bool {
    &&& d.job_id == j.id
    &&& d.commit == j.commit
    &&& exists|u: int|
        0 <= u < s.users@.len() && (#[trigger] s.users@[u]).id == j.owner && d.user_name@
            == s.users@[u].name@
    &&& exists|t: int|
        0 <= t < s.job_types@.len() && (#[trigger] s.job_types@[t]).id == j.job_type && d.job_spec@
            == s.job_types@[t].spec@
}

/// Everything `dequeue_one` promises: `None` exactly when nothing is
/// submitted, otherwise the FIFO pick moves to `Started` in place and
/// its dispatchable fields come back.
pub open spec fn dequeue_post(pre: Store, post: Store, now: u64, r: Option<DispatchedJob>) -> bool {
    &&& post.users@ == pre.users@
    &&& post.job_types@ == pre.job_types@
    &&& if !has_submitted(pre.jobs@) {
        &&& post.jobs@ == pre.jobs@
        &&& r is None
    } else {
        &&& r is Some
        &&& exists|i: int|
            #![auto]
            dequeue_choice_ok(pre.jobs@, i) && post.jobs@ == pre.jobs@.update(
                i,
                job_started(pre.jobs@[i], now),
            ) && dispatched_matches(pre, pre.jobs@[i], r->Some_0)
    }
}

/// The row as rewritten when a termination report arrives: the log and
/// stop time are recorded; a row not yet terminal moves to the reported
/// state, while a row already terminal keeps its state and verdict, so
/// a terminal state is entered at most once.
pub open spec fn job_terminated(
    j: Job,
    new_state: JobState,
    log: Log,
    test_result: Option<TestResult>,
    now: u64,
) -> Job {
    if j.state.spec_terminal() {
        Job { stop_ts: Some(now), run_log: Some(log), ..j }
    } else {
        Job { state: new_state, stop_ts: Some(now), run_log: Some(log), test_result, ..j }
    }
}

/// Everything `terminate` promises: whether the row was found, and the
/// exact rewrite applied to it.
pub open spec fn terminate_post(
    pre: Store,
    post: Store,
    job_id: u128,
    new_state: JobState,
    log: Log,
    test_result: Option<TestResult>,
    now: u64,
    r: bool,
) -> bool {
    &&& post.users@ == pre.users@
    &&& post.job_types@ == pre.job_types@
    &&& r == pre.has_job(job_id)
    &&& if !pre.has_job(job_id) {
        post.jobs@ == pre.jobs@
    } else {
        exists|i: int|
            #![auto]
            0 <= i < pre.jobs@.len() && pre.jobs@[i].id == job_id && post.jobs@
                == pre.jobs@.update(
                i,
                job_terminated(pre.jobs@[i], new_state, log, test_result, now),
            )
    }
}

/// A job with this id exists and is in a terminal state.
pub open spec fn terminal_in(jobs: Seq<Job>, id: u128) -> bool {
    exists|i: int|
        0 <= i < jobs.len() && (#[trigger] jobs[i]).id == id && jobs[i].state.spec_terminal()
}

/// The type with id `tid` exists and its spec name is `spec`.
pub open spec fn type_spec_is(s: Store, tid: u128, spec: Seq<char>) -> bool {
    exists|t: int|
        0 <= t < s.job_types@.len() && (#[trigger] s.job_types@[t]).id == tid
            && s.job_types@[t].spec@ == spec
}

/// The row `j` is what a job reference of this user names: the id
/// matches, the row belongs to the user, and the row's type carries the
/// referenced spec name.
pub open spec fn job_matches_ref(s: Store, j: Job, user: u128, job_id: u128, spec: Seq<char>) -> bool {
    &&& j.id == job_id
    &&& j.owner == user
    &&& type_spec_is(s, j.job_type, spec)
}

/// Some row of the store is what the reference names.
pub open spec fn ref_found(s: Store, user: u128, jref: JobReference) -> bool {
    exists|i: int|
        0 <= i < s.jobs@.len() && job_matches_ref(
            s,
            #[trigger] s.jobs@[i],
            user,
            jref.job_id,
            jref.job_spec@,
        )
}

/// The reply when a reference resolves to no job of the caller.
pub open spec fn status_notfound_msg(jref: JobReference) -> Seq<char> {
    "Job "@ + crate::text::uuid_hyphenated(jref.job_id) + " with spec "@ + jref.job_spec@
        + " not found"@
}

/// Everything `status` promises: the row the reference names is
/// reported with its user-facing result, or exactly the not-found
/// error when no row matches.
pub open spec fn status_post(
    s: Store,
    user: u128,
    jref: JobReference,
    r: Result<JobStatus, CtlError>,
) -> bool {
    if ref_found(s, user, jref) {
        &&& r matches Ok(st)
        &&& st.job_id == jref.job_id
        &&& st.job_spec@ == jref.job_spec@
        &&& exists|i: int|
            0 <= i < s.jobs@.len() && job_matches_ref(
                s,
                #[trigger] s.jobs@[i],
                user,
                jref.job_id,
                jref.job_spec@,
            ) && r->Ok_0.result == s.jobs@[i].spec_result()
    } else {
        r matches Err(CtlError::NotFound(m)) && m@ == status_notfound_msg(jref)
    }
}

/// The row as rewritten by a user cancellation: a live row moves to
/// `Canceled` stamped with its stop time; a terminal row stays as it
/// is.
pub open spec fn job_canceled(j: Job, now: u64) -> Job {
    if j.state.spec_terminal() {
        j
    } else {
        Job { state: JobState::Canceled, stop_ts: Some(now), ..j }
    }
}

/// Everything `cancel` promises: the named row, if any, is rewritten by
/// `job_canceled` and its new status comes back; otherwise exactly the
/// not-found error, with the store unchanged.
pub open spec fn cancel_post(
    pre: Store,
    post: Store,
    user: u128,
    jref: JobReference,
    now: u64,
    r: Result<JobStatus, CtlError>,
) -> bool {
    &&& post.users@ == pre.users@
    &&& post.job_types@ == pre.job_types@
    &&& if ref_found(pre, user, jref) {
        &&& r matches Ok(st)
        &&& st.job_id == jref.job_id
        &&& st.job_spec@ == jref.job_spec@
        &&& exists|i: int|
            #![auto]
            0 <= i < pre.jobs@.len() && job_matches_ref(
                pre,
                pre.jobs@[i],
                user,
                jref.job_id,
                jref.job_spec@,
            ) && post.jobs@ == pre.jobs@.update(i, job_canceled(pre.jobs@[i], now))
                && r->Ok_0.result == job_canceled(pre.jobs@[i], now).spec_result()
    } else {
        &&& post.jobs@ == pre.jobs@
        &&& r matches Err(CtlError::NotFound(m)) && m@ == status_notfound_msg(jref)
    }
}

/// Re-establishes the store invariant after an operation that only
/// touched job rows, from the per-row facts the operation proved.
pub proof fn lemma_wf_after_jobs_change(pre: Store, post: Store)
    requires
        pre.wf(),
        post.users@ == pre.users@,
        post.job_types@ == pre.job_types@,
        forall|i: int| 0 <= i < post.jobs@.len() ==> (#[trigger] post.jobs@[i]).wf(),
        forall|i: int, j: int|
            #![trigger post.jobs@[i], post.jobs@[j]]
            0 <= i < post.jobs@.len() && 0 <= j < post.jobs@.len() && i != j ==> post.jobs@[i].id
                != post.jobs@[j].id,
        forall|i: int| 0 <= i < post.jobs@.len() ==> pre.has_user(
            (#[trigger] post.jobs@[i]).owner,
        ) && pre.has_type_id(post.jobs@[i].job_type),
    ensures
        post.wf(),
{
    assert forall|i: int| 0 <= i < post.jobs@.len() implies post.has_user(
        (#[trigger] post.jobs@[i]).owner,
    ) && post.has_type_id(post.jobs@[i].job_type) by {
        assert(pre.has_user(post.jobs@[i].owner));
        let u = choose|u: int|
            0 <= u < pre.users@.len() && (#[trigger] pre.users@[u]).id == post.jobs@[i].owner;
        assert(post.users@[u].id == post.jobs@[i].owner);
        assert(pre.has_type_id(post.jobs@[i].job_type));
        let t = choose|t: int|
            0 <= t < pre.job_types@.len() && (#[trigger] pre.job_types@[t]).id
                == post.jobs@[i].job_type;
        assert(post.job_types@[t].id == post.jobs@[i].job_type);
    }
}

/// Inserts one row into a sequence already in history order, in front
/// of the first row it precedes.
pub open spec fn insert_later_first(s: Seq<Job>, j: Job) -> Seq<Job>
    decreases s.len(),
{
    if s.len() == 0 {
        seq![j]
    } else if later_first(j, s[0]) {
        seq![j] + s
    } else {
        seq![s[0]] + insert_later_first(s.drop_first(), j)
    }
}

/// Sorts rows into history order by repeated insertion.
pub open spec fn sort_later_first(s: Seq<Job>) -> Seq<Job>
    decreases s.len(),
{
    if s.len() == 0 {
        Seq::empty()
    } else {
        insert_later_first(sort_later_first(s.drop_last()), s.last())
    }
}

/// The rows a history query over one spec name selects: the user's
/// jobs whose type carries that spec name.
pub open spec fn user_spec_jobs(s: Store, user: u128, spec: Seq<char>) -> Seq<Job> {
    s.jobs@.filter(|j: Job| j.owner == user && type_spec_is(s, j.job_type, spec))
}

/// Everything `history` over one spec name promises: one status row per
/// selected job, most recent first.
pub open spec fn history_some_post(s: Store, user: u128, spec: Seq<char>, r: Seq<JobStatus>) -> bool {
    let js = sort_later_first(user_spec_jobs(s, user, spec));
    &&& r.len() == js.len()
    &&& forall|i: int|
        0 <= i < r.len() ==> (#[trigger] r[i]).job_id == js[i].id && r[i].result
            == js[i].spec_result() && r[i].job_spec@ == spec
}

/// The most recent of the user's rows of one job type, by history order.
pub open spec fn best_job(jobs: Seq<Job>, user: u128, tid: u128) -> Option<Job>
    decreases jobs.len(),
{
    if jobs.len() == 0 {
        None
    } else {
        let rest = best_job(jobs.drop_last(), user, tid);
        let j = jobs.last();
        if j.owner == user && j.job_type == tid {
            match rest {
                None => Some(j),
                Some(b) => if later_first(j, b) {
                    Some(j)
                } else {
                    Some(b)
                },
            }
        } else {
            rest
        }
    }
}

/// History without a spec name, over the first `t` job types in store
/// order: for each type with at least one row of the user, the most
/// recent such row.
pub open spec fn history_all_upto(s: Store, user: u128, t: int) -> Seq<JobStatus>
    decreases t,
{
    if t <= 0 {
        Seq::empty()
    } else {
        history_all_upto(s, user, t - 1) + match best_job(s.jobs@, user, s.job_types@[t - 1].id) {
            Option::None => Seq::<JobStatus>::empty(),
            Option::Some(b) => seq![
                JobStatus {
                    job_spec: s.job_types@[t - 1].spec,
                    job_id: b.id,
                    result: b.spec_result(),
                },
            ],
        }
    }
}

/// Inserting at the first position whose row the new row does not come
/// after is exactly `insert_later_first`.
pub proof fn lemma_insert_position(s: Seq<Job>, j: Job, p: int)
    requires
        0 <= p <= s.len(),
        forall|m: int| 0 <= m < p ==> !later_first(j, #[trigger] s[m]),
        p < s.len() ==> later_first(j, s[p]),
    ensures
        insert_later_first(s, j) == s.subrange(0, p) + seq![j] + s.subrange(p, s.len() as int),
    decreases s.len(),
{
    if s.len() == 0 {
        assert(insert_later_first(s, j) =~= s.subrange(0, 0) + seq![j] + s.subrange(0, 0));
    } else if p == 0 {
        assert(insert_later_first(s, j) =~= s.subrange(0, 0) + seq![j] + s.subrange(
            0,
            s.len() as int,
        ));
    } else {
        assert(!later_first(j, s[0]));
        lemma_insert_position(s.drop_first(), j, p - 1);
        assert(s.drop_first().subrange(0, p - 1) =~= s.subrange(1, p));
        assert(s.drop_first().subrange(p - 1, s.drop_first().len() as int) =~= s.subrange(
            p,
            s.len() as int,
        ));
        assert(insert_later_first(s, j) =~= s.subrange(0, p) + seq![j] + s.subrange(
            p,
            s.len() as int,
        ));
    }
}

/// History-order comparison, computed.
fn later_first_exec(a: &Job, b: &Job) -> (r: bool)
    ensures
        r == later_first(*a, *b),
{
    a.submit_ts > b.submit_ts || (a.submit_ts == b.submit_ts && a.id >= b.id)
}

/// Everything `log` promises: the stored log of the referenced job (an
/// empty, untruncated log where none was recorded yet), or exactly the
/// not-found error when no row matches.
pub open spec fn log_post(s: Store, user: u128, jref: JobReference, r: Result<Log, CtlError>) -> bool {
    if ref_found(s, user, jref) {
        &&& r matches Ok(l)
        &&& exists|i: int|
            0 <= i < s.jobs@.len() && job_matches_ref(
                s,
                #[trigger] s.jobs@[i],
                user,
                jref.job_id,
                jref.job_spec@,
            ) && (match s.jobs@[i].run_log {
                Option::Some(stored) => l.log@ == stored.log@ && l.truncated == stored.truncated,
                Option::None => l.log@.len() == 0 && !l.truncated,
            })
    } else {
        r matches Err(CtlError::NotFound(m)) && m@ == status_notfound_msg(jref)
    }
}

/// Whether all user rows carry pairwise distinct ids and names.
fn users_distinct(users: &Vec<SqlUser>) -> (r: bool)
    ensures
        r == forall|i: int, j: int|
            #![trigger users@[i], users@[j]]
            0 <= i < users@.len() && 0 <= j < users@.len() && i != j ==> users@[i].id
                != users@[j].id && users@[i].name@ != users@[j].name@,
{
    let mut a: usize = 0;
    while a < users.len()
        invariant
            a <= users@.len(),
            forall|i: int, j: int|
                #![trigger users@[i], users@[j]]
                0 <= i < j < users@.len() && i < a ==> users@[i].id != users@[j].id
                    && users@[i].name@ != users@[j].name@,
        decreases users@.len() - a,
    {
        let mut b: usize = a + 1;
        while b < users.len()
            invariant
                a < users@.len(),
                a < b <= users@.len(),
                forall|j: int|
                    a < j < b ==> users@[a as int].id != (#[trigger] users@[j]).id
                        && users@[a as int].name@ != users@[j].name@,
            decreases users@.len() - b,
        {
            if users[a].id == users[b].id || users[a].name == users[b].name {
                return false;
            }
            b += 1;
        }
        a += 1;
    }
    proof {
        assert forall|i: int, j: int|
            0 <= i < users@.len() && 0 <= j < users@.len() && i != j implies (
        #[trigger] users@[i]).id != (#[trigger] users@[j]).id && users@[i].name@
            != users@[j].name@ by {
            if j < i {
                assert(users@[j].id != users@[i].id && users@[j].name@ != users@[i].name@);
            }
        }
    }
    true
}

/// Whether all job-type rows carry pairwise distinct ids and specs.
fn job_types_distinct(job_types: &Vec<JobType>) -> (r: bool)
    ensures
        r == forall|i: int, j: int|
            #![trigger job_types@[i], job_types@[j]]
            0 <= i < job_types@.len() && 0 <= j < job_types@.len() && i != j ==> job_types@[i].id
                != job_types@[j].id && job_types@[i].spec@ != job_types@[j].spec@,
{
    let mut a: usize = 0;
    while a < job_types.len()
        invariant
            a <= job_types@.len(),
            forall|i: int, j: int|
                #![trigger job_types@[i], job_types@[j]]
                0 <= i < j < job_types@.len() && i < a ==> job_types@[i].id != job_types@[j].id
                    && job_types@[i].spec@ != job_types@[j].spec@,
        decreases job_types@.len() - a,
    {
        let mut b: usize = a + 1;
        while b < job_types.len()
            invariant
                a < job_types@.len(),
                a < b <= job_types@.len(),
                forall|j: int|
                    a < j < b ==> job_types@[a as int].id != (#[trigger] job_types@[j]).id
                        && job_types@[a as int].spec@ != job_types@[j].spec@,
            decreases job_types@.len() - b,
        {
            if job_types[a].id == job_types[b].id || job_types[a].spec == job_types[b].spec {
                return false;
            }
            b += 1;
        }
        a += 1;
    }
    proof {
        assert forall|i: int, j: int|
            0 <= i < job_types@.len() && 0 <= j < job_types@.len() && i != j implies (
        #[trigger] job_types@[i]).id != (#[trigger] job_types@[j]).id && job_types@[i].spec@
            != job_types@[j].spec@ by {
            if j < i {
                assert(job_types@[j].id != job_types@[i].id && job_types@[j].spec@
                    != job_types@[i].spec@);
            }
        }
    }
    true
}

/// Whether all job rows carry pairwise distinct ids.
fn job_ids_distinct(jobs: &Vec<Job>) -> (r: bool)
    ensures
        r == forall|i: int, j: int|
            #![trigger jobs@[i], jobs@[j]]
            0 <= i < jobs@.len() && 0 <= j < jobs@.len() && i != j ==> jobs@[i].id != jobs@[j].id,
{
    let mut a: usize = 0;
    while a < jobs.len()
        invariant
            a <= jobs@.len(),
            forall|i: int, j: int|
                #![trigger jobs@[i], jobs@[j]]
                0 <= i < j < jobs@.len() && i < a ==> jobs@[i].id != jobs@[j].id,
        decreases jobs@.len() - a,
    {
        let mut b: usize = a + 1;
        while b < jobs.len()
            invariant
                a < jobs@.len(),
                a < b <= jobs@.len(),
                forall|j: int| a < j < b ==> jobs@[a as int].id != (#[trigger] jobs@[j]).id,
            decreases jobs@.len() - b,
        {
            if jobs[a].id == jobs[b].id {
                return false;
            }
            b += 1;
        }
        a += 1;
    }
    proof {
        assert forall|i: int, j: int|
            0 <= i < jobs@.len() && 0 <= j < jobs@.len() && i != j implies (#[trigger] jobs@[i]).id
            != (#[trigger] jobs@[j]).id by {
            if j < i {
                assert(jobs@[j].id != jobs@[i].id);
            }
        }
    }
    true
}

/// Whether one job row satisfies its consistency conditions.
fn job_row_ok(j: &Job) -> (r: bool)
    ensures
        r == j.wf(),
{
    let state_ok = match j.state {
        JobState::Submitted => j.start_ts.is_none() && j.stop_ts.is_none() && j.run_log.is_none()
            && j.test_result.is_none(),
        JobState::Started => j.start_ts.is_some() && j.stop_ts.is_none() && j.run_log.is_none()
            && j.test_result.is_none(),
        _ => j.stop_ts.is_some(),
    };
    let verdict_ok = match j.test_result {
        Some(_) => match j.state {
            JobState::Completed => true,
            _ => false,
        },
        None => true,
    };
    let log_ok = match &j.run_log {
        Some(l) => l.log.len() <= crate::proto::LOG_LIMIT,
        None => true,
    };
    state_ok && verdict_ok && log_ok
}

/// Whether every job row is consistent.
fn jobs_consistent(jobs: &Vec<Job>) -> (r: bool)
    ensures
        r == forall|i: int| 0 <= i < jobs@.len() ==> (#[trigger] jobs@[i]).wf(),
{
    let mut i: usize = 0;
    while i < jobs.len()
        invariant
            i <= jobs@.len(),
            forall|k: int| 0 <= k < i ==> (#[trigger] jobs@[k]).wf(),
        decreases jobs@.len() - i,
    {
        if !job_row_ok(&jobs[i]) {
            return false;
        }
        i += 1;
    }
    true
}

/// Whether every job row names an existing user and job type.
fn jobs_reference_rows(s: &Store) -> (r: bool)
    ensures
        r == forall|i: int|
            0 <= i < s.jobs@.len() ==> s.has_user((#[trigger] s.jobs@[i]).owner) && s.has_type_id(
                s.jobs@[i].job_type,
            ),
{
    let mut i: usize = 0;
    while i < s.jobs.len()
        invariant
            i <= s.jobs@.len(),
            forall|k: int|
                0 <= k < i ==> s.has_user((#[trigger] s.jobs@[k]).owner) && s.has_type_id(
                    s.jobs@[k].job_type,
                ),
        decreases s.jobs@.len() - i,
    {
        if !s.contains_user(s.jobs[i].owner) {
            return false;
        }
        if !s.contains_type(s.jobs[i].job_type) {
            return false;
        }
        i += 1;
    }
    true
}

/// Builds the not-found reply for an unresolved job reference.
fn notfound_reply(job: &JobReference) -> (r: String)
    ensures
        r@ == status_notfound_msg(*job),
{
    let mut s = String::from_str("Job ");
    let id = crate::text::uuid_string(job.job_id);
    s.append(id.as_str());
    s.append(" with spec ");
    s.append(job.job_spec.as_str());
    s.append(" not found");
    proof {
        assert(s@ =~= status_notfound_msg(*job));
    }
    s
}

/// The store itself. All operations serialize through `&mut` access.
pub struct Store {
    pub users: Vec<SqlUser>,
    pub job_types: Vec<JobType>,
    pub jobs: Vec<Job>,
}

impl Store {
    /// A user with this id exists.
    pub open spec fn has_user(self, id: u128) -> bool {
        exists|i: int| 0 <= i < self.users@.len() && (#[trigger] self.users@[i]).id == id
    }

    /// A user with this name exists.
    pub open spec fn has_user_name(self, name: Seq<char>) -> bool {
        exists|i: int| 0 <= i < self.users@.len() && (#[trigger] self.users@[i]).name@ == name
    }

    /// A job type with this id exists.
    pub open spec fn has_type_id(self, id: u128) -> bool {
        exists|i: int| 0 <= i < self.job_types@.len() && (#[trigger] self.job_types@[i]).id == id
    }

    /// A job type with this spec name exists.
    pub open spec fn has_spec(self, spec: Seq<char>) -> bool {
        exists|i: int| 0 <= i < self.job_types@.len() && (#[trigger] self.job_types@[i]).spec@
            == spec
    }

    /// A job with this id exists.
    pub open spec fn has_job(self, id: u128) -> bool {
        exists|i: int| 0 <= i < self.jobs@.len() && (#[trigger] self.jobs@[i]).id == id
    }

    /// Store invariant: ids and names are unique, every row is
    /// consistent, and every job references an existing user and type.
    pub open spec fn wf(self) -> bool {
        &&& forall|i: int, j: int|
            #![trigger self.users@[i], self.users@[j]]
            0 <= i < self.users@.len() && 0 <= j < self.users@.len() && i != j
                ==> self.users@[i].id != self.users@[j].id && self.users@[i].name@
                != self.users@[j].name@
        &&& forall|i: int, j: int|
            #![trigger self.job_types@[i], self.job_types@[j]]
            0 <= i < self.job_types@.len() && 0 <= j < self.job_types@.len() && i != j
                ==> self.job_types@[i].id != self.job_types@[j].id && self.job_types@[i].spec@
                != self.job_types@[j].spec@
        &&& forall|i: int, j: int|
            #![trigger self.jobs@[i], self.jobs@[j]]
            0 <= i < self.jobs@.len() && 0 <= j < self.jobs@.len() && i != j
                ==> self.jobs@[i].id != self.jobs@[j].id
        &&& forall|i: int| 0 <= i < self.jobs@.len() ==> (#[trigger] self.jobs@[i]).wf()
        &&& forall|i: int| 0 <= i < self.jobs@.len() ==> self.has_user(
            (#[trigger] self.jobs@[i]).owner,
        ) && self.has_type_id(self.jobs@[i].job_type)
    }

    /// An empty store.
    pub fn new() -> (r: Store)
        ensures
            r.wf(),
            r.users@ == Seq::<SqlUser>::empty(),
            r.job_types@ == Seq::<JobType>::empty(),
            r.jobs@ == Seq::<Job>::empty(),
    {
        Store { users: Vec::new(), job_types: Vec::new(), jobs: Vec::new() }
    }

    /// Assembles a store from saved rows, as a restart does: the rows
    /// are accepted exactly when they satisfy the store invariant, so
    /// every store this returns is as trustworthy as one built
    /// operation by operation.
    pub fn from_rows(users: Vec<SqlUser>, job_types: Vec<JobType>, jobs: Vec<Job>) -> (r: Option<
        Store,
    >)
        ensures
            ({
                let s = Store { users, job_types, jobs };
                &&& (r is Some) == s.wf()
                &&& r matches Some(st) ==> st == s
            }),
    {
        let s = Store { users, job_types, jobs };
        if !users_distinct(&s.users) {
            return None;
        }
        if !job_types_distinct(&s.job_types) {
            return None;
        }
        if !job_ids_distinct(&s.jobs) {
            return None;
        }
        if !jobs_consistent(&s.jobs) {
            return None;
        }
        if !jobs_reference_rows(&s) {
            return None;
        }
        Some(s)
    }

    /// Adds a user identity. Succeeds exactly when both the id and the
    /// name are not yet taken; on failure the store is unchanged.
    pub fn add_user(&mut self, id: u128, name: String) -> (r: bool)
        requires
            old(self).wf(),
        ensures
            final(self).wf(),
            r == (!old(self).has_user(id) && !old(self).has_user_name(name@)),
            r ==> final(self).users@ == old(self).users@.push(SqlUser { id, name }),
            !r ==> *final(self) == *old(self),
            final(self).job_types@ == old(self).job_types@,
            final(self).jobs@ == old(self).jobs@,
    {
        let mut i: usize = 0;
        while i < self.users.len()
            invariant
                old(self).wf(),
                i <= self.users@.len(),
                forall|k: int| 0 <= k < i ==> (#[trigger] self.users@[k]).id != id
                    && self.users@[k].name@ != name@,
                *self == *old(self),
            decreases self.users@.len() - i,
        {
            if self.users[i].id == id || self.users[i].name == name {
                return false;
            }
            i += 1;
        }
        self.users.push(SqlUser { id, name });
        proof {
            assert forall|k: int| 0 <= k < self.jobs@.len() implies self.has_user(
                (#[trigger] self.jobs@[k]).owner,
            ) && self.has_type_id(self.jobs@[k].job_type) by {
                assert(old(self).has_user(old(self).jobs@[k].owner));
                let w = choose|w: int|
                    0 <= w < old(self).users@.len() && (#[trigger] old(self).users@[w]).id
                        == old(self).jobs@[k].owner;
                assert(self.users@[w].id == self.jobs@[k].owner);
                assert(old(self).has_type_id(old(self).jobs@[k].job_type));
                let t = choose|t: int|
                    0 <= t < old(self).job_types@.len() && (#[trigger] old(self).job_types@[t]).id
                        == old(self).jobs@[k].job_type;
                assert(self.job_types@[t].id == self.jobs@[k].job_type);
            }
        }
        true
    }

    /// Adds a job type. Succeeds exactly when both the id and the spec
    /// name are not yet taken; on failure the store is unchanged.
    pub fn add_job_type(&mut self, id: u128, spec: String) -> (r: bool)
        requires
            old(self).wf(),
        ensures
            final(self).wf(),
            r == (!old(self).has_type_id(id) && !old(self).has_spec(spec@)),
            r ==> final(self).job_types@ == old(self).job_types@.push(JobType { id, spec }),
            !r ==> *final(self) == *old(self),
            final(self).users@ == old(self).users@,
            final(self).jobs@ == old(self).jobs@,
    {
        let mut i: usize = 0;
        while i < self.job_types.len()
            invariant
                old(self).wf(),
                i <= self.job_types@.len(),
                forall|k: int| 0 <= k < i ==> (#[trigger] self.job_types@[k]).id != id
                    && self.job_types@[k].spec@ != spec@,
                *self == *old(self),
            decreases self.job_types@.len() - i,
        {
            if self.job_types[i].id == id || self.job_types[i].spec == spec {
                return false;
            }
            i += 1;
        }
        self.job_types.push(JobType { id, spec });
        proof {
            assert forall|k: int| 0 <= k < self.jobs@.len() implies self.has_user(
                (#[trigger] self.jobs@[k]).owner,
            ) && self.has_type_id(self.jobs@[k].job_type) by {
                assert(old(self).has_type_id(old(self).jobs@[k].job_type));
                let w = choose|w: int|
                    0 <= w < old(self).job_types@.len() && (#[trigger] old(self).job_types@[w]).id
                        == old(self).jobs@[k].job_type;
                assert(self.job_types@[w].id == self.jobs@[k].job_type);
                assert(old(self).has_user(old(self).jobs@[k].owner));
                let u = choose|u: int|
                    0 <= u < old(self).users@.len() && (#[trigger] old(self).users@[u]).id
                        == old(self).jobs@[k].owner;
                assert(self.users@[u].id == self.jobs@[k].owner);
            }
        }
        true
    }

    /// Index of the job type whose spec name matches, if any.
    fn find_type_by_spec(&self, spec: &String) -> (r: Option<usize>)
        ensures
            r is Some <==> self.has_spec(spec@),
            r matches Some(i) ==> i < self.job_types@.len() && self.job_types@[i as int].spec@
                == spec@,
    {
        let mut i: usize = 0;
        while i < self.job_types.len()
            invariant
                i <= self.job_types@.len(),
                forall|k: int| 0 <= k < i ==> (#[trigger] self.job_types@[k]).spec@ != spec@,
            decreases self.job_types@.len() - i,
        {
            if self.job_types[i].spec == *spec {
                return Some(i);
            }
            i += 1;
        }
        None
    }

    /// Whether a user with this id exists.
    fn contains_user(&self, id: u128) -> (r: bool)
        ensures
            r == self.has_user(id),
    {
        let mut i: usize = 0;
        while i < self.users.len()
            invariant
                i <= self.users@.len(),
                forall|k: int| 0 <= k < i ==> (#[trigger] self.users@[k]).id != id,
            decreases self.users@.len() - i,
        {
            if self.users[i].id == id {
                return true;
            }
            i += 1;
        }
        false
    }

    /// Whether a job type with this id exists.
    fn contains_type(&self, id: u128) -> (r: bool)
        ensures
            r == self.has_type_id(id),
    {
        let mut i: usize = 0;
        while i < self.job_types.len()
            invariant
                i <= self.job_types@.len(),
                forall|k: int| 0 <= k < i ==> (#[trigger] self.job_types@[k]).id != id,
            decreases self.job_types@.len() - i,
        {
            if self.job_types[i].id == id {
                return true;
            }
            i += 1;
        }
        false
    }

    /// Whether a job row with this id exists.
    fn contains_job(&self, id: u128) -> (r: bool)
        ensures
            r == self.has_job(id),
    {
        let mut i: usize = 0;
        while i < self.jobs.len()
            invariant
                i <= self.jobs@.len(),
                forall|k: int| 0 <= k < i ==> (#[trigger] self.jobs@[k]).id != id,
            decreases self.jobs@.len() - i,
        {
            if self.jobs[i].id == id {
                return true;
            }
            i += 1;
        }
        false
    }

    /// Counts the user's jobs that are not yet terminal.
    pub fn count_active(&self, user: u128) -> (r: usize)
        ensures
            r == active_count(self.jobs@, user),
    {
        let mut n: usize = 0;
        let mut i: usize = 0;
        while i < self.jobs.len()
            invariant
                i <= self.jobs@.len(),
                n <= i,
                n == active_count(self.jobs@.take(i as int), user),
            decreases self.jobs@.len() - i,
        {
            proof {
                broadcast use Seq::lemma_filter_len_push;

                assert(self.jobs@.take(i as int + 1) =~= self.jobs@.take(i as int).push(
                    self.jobs@[i as int],
                ));
            }
            if self.jobs[i].owner == user && !self.jobs[i].state.is_terminal() {
                n += 1;
            }
            i += 1;
        }
        proof {
            assert(self.jobs@.take(self.jobs@.len() as int) =~= self.jobs@);
        }
        n
    }

    /// Counts the user's jobs submitted in the rolling hour before `now`.
    pub fn count_recent(&self, user: u128, now: u64) -> (r: usize)
        ensures
            r == recent_count(self.jobs@, user, now),
    {
        let mut n: usize = 0;
        let mut i: usize = 0;
        while i < self.jobs.len()
            invariant
                i <= self.jobs@.len(),
                n <= i,
                n == recent_count(self.jobs@.take(i as int), user, now),
            decreases self.jobs@.len() - i,
        {
            proof {
                broadcast use Seq::lemma_filter_len_push;

                assert(self.jobs@.take(i as int + 1) =~= self.jobs@.take(i as int).push(
                    self.jobs@[i as int],
                ));
            }
            if self.jobs[i].owner == user && self.jobs[i].submit_ts as u128 + HOUR_MILLIS as u128
                >= now as u128 {
                n += 1;
            }
            i += 1;
        }
        proof {
            assert(self.jobs@.take(self.jobs@.len() as int) =~= self.jobs@);
        }
        n
    }

    /// Resolves the spec name, applies the two quotas, and inserts a new
    /// job row in state `Submitted`. The checks apply in the order the
    /// submission path performs them: unknown spec first, then the
    /// concurrency quota, then the rolling-hour quota, then id
    /// collision. Exactly the passing submissions insert a row.
    pub fn insert_submission(
        &mut self,
        user_id: u128,
        spec: &String,
        commit: String,
        new_id: u128,
        now: u64,
        max_active: u32,
        max_hour: u32,
    ) -> (r: Result<u128, SubmitError>)
        requires
            old(self).wf(),
            old(self).has_user(user_id),
        ensures
            final(self).wf(),
            insert_post(
                *old(self),
                *final(self),
                user_id,
                spec@,
                commit,
                new_id,
                now,
                max_active,
                max_hour,
                r,
            ),
            states_monotone(old(self).jobs@, final(self).jobs@),
    {
        let type_idx = match self.find_type_by_spec(spec) {
            None => {
                return Err(SubmitError::InvalidSpec { spec: spec.clone() });
            },
            Some(i) => i,
        };
        let active = self.count_active(user_id);
        if active >= max_active as usize {
            return Err(SubmitError::Quota { active: clip_count(active), max: max_active });
        }
        let recent = self.count_recent(user_id, now);
        if recent >= max_hour as usize {
            return Err(SubmitError::TimeQuota { count: clip_count(recent), max: max_hour });
        }
        if self.contains_job(new_id) {
            return Err(SubmitError::Internal);
        }
        let job_type = self.job_types[type_idx].id;
        self.jobs.push(
            Job {
                id: new_id,
                owner: user_id,
                job_type,
                commit,
                state: JobState::Submitted,
                submit_ts: now,
                start_ts: None,
                stop_ts: None,
                run_log: None,
                test_result: None,
            },
        );
        proof {
            lemma_wf_after_jobs_change(*old(self), *self);
        }
        Ok(new_id)
    }

    /// Name of the user with this id, which the invariant guarantees
    /// exists for every job row's owner.
    fn user_name_by_id(&self, id: u128) -> (r: String)
        requires
            self.has_user(id),
        ensures
            exists|u: int|
                0 <= u < self.users@.len() && (#[trigger] self.users@[u]).id == id && r@
                    == self.users@[u].name@,
    {
        let mut i: usize = 0;
        while i < self.users.len()
            invariant
                i <= self.users@.len(),
                forall|k: int| 0 <= k < i ==> (#[trigger] self.users@[k]).id != id,
            decreases self.users@.len() - i,
        {
            if self.users[i].id == id {
                return self.users[i].name.clone();
            }
            i += 1;
        }
        proof {
            let w = choose|w: int|
                0 <= w < self.users@.len() && (#[trigger] self.users@[w]).id == id;
            assert(false);
        }
        unreached()
    }

    /// Spec name of the job type with this id, which the invariant
    /// guarantees exists for every job row's type.
    fn spec_by_type_id(&self, id: u128) -> (r: String)
        requires
            self.has_type_id(id),
        ensures
            exists|t: int|
                0 <= t < self.job_types@.len() && (#[trigger] self.job_types@[t]).id == id && r@
                    == self.job_types@[t].spec@,
    {
        let mut i: usize = 0;
        while i < self.job_types.len()
            invariant
                i <= self.job_types@.len(),
                forall|k: int| 0 <= k < i ==> (#[trigger] self.job_types@[k]).id != id,
            decreases self.job_types@.len() - i,
        {
            if self.job_types[i].id == id {
                return self.job_types[i].spec.clone();
            }
            i += 1;
        }
        proof {
            let w = choose|w: int|
                0 <= w < self.job_types@.len() && (#[trigger] self.job_types@[w]).id == id;
            assert(false);
        }
        unreached()
    }

    /// Selects the oldest submitted job across all users (FIFO by
    /// submission time, ties broken by job id), atomically transitions
    /// it to `Started` stamped with `now`, and returns its dispatchable
    /// fields; `None` when nothing is submitted.
    pub fn dequeue_one(&mut self, now: u64) -> (r: Option<DispatchedJob>)
        requires
            old(self).wf(),
        ensures
            final(self).wf(),
            dequeue_post(*old(self), *final(self), now, r),
            states_monotone(old(self).jobs@, final(self).jobs@),
    {
        let mut best: Option<usize> = None;
        let mut i: usize = 0;
        while i < self.jobs.len()
            invariant
                i <= self.jobs@.len(),
                match best {
                    None => forall|k: int|
                        0 <= k < i ==> !((#[trigger] self.jobs@[k]).state is Submitted),
                    Some(b) => {
                        &&& (b as int) < i
                        &&& self.jobs@[b as int].state is Submitted
                        &&& forall|k: int|
                            0 <= k < i && (#[trigger] self.jobs@[k]).state is Submitted && k != b
                                ==> earlier_submitted(self.jobs@[b as int], self.jobs@[k])
                    },
                },
            decreases self.jobs@.len() - i,
        {
            if self.jobs[i].state == JobState::Submitted {
                best = match best {
                    None => Some(i),
                    Some(b) => {
                        if self.jobs[i].submit_ts < self.jobs[b].submit_ts || (
                        self.jobs[i].submit_ts == self.jobs[b].submit_ts && self.jobs[i].id
                            < self.jobs[b].id) {
                            Some(i)
                        } else {
                            Some(b)
                        }
                    },
                };
            }
            i += 1;
        }
        let b = match best {
            None => {
                return None;
            },
            Some(b) => b,
        };
        let owner = self.jobs[b].owner;
        let type_id = self.jobs[b].job_type;
        let user_name = self.user_name_by_id(owner);
        let job_spec = self.spec_by_type_id(type_id);
        let job_id = self.jobs[b].id;
        let commit = self.jobs[b].commit.clone();
        let started = Job {
            id: job_id,
            owner,
            job_type: type_id,
            commit: self.jobs[b].commit.clone(),
            state: JobState::Started,
            submit_ts: self.jobs[b].submit_ts,
            start_ts: Some(now),
            stop_ts: None,
            run_log: None,
            test_result: None,
        };
        proof {
            assert(old(self).jobs@[b as int].wf());
            assert(started == job_started(old(self).jobs@[b as int], now));
        }
        self.jobs[b] = started;
        proof {
            lemma_wf_after_jobs_change(*old(self), *self);
            assert(dequeue_choice_ok(old(self).jobs@, b as int));
        }
        Some(DispatchedJob { job_id, user_name, job_spec, commit })
    }

    /// Index of the job row with this id, if any.
    fn find_job_by_id(&self, id: u128) -> (r: Option<usize>)
        ensures
            r is Some <==> self.has_job(id),
            r matches Some(i) ==> i < self.jobs@.len() && self.jobs@[i as int].id == id,
    {
        let mut i: usize = 0;
        while i < self.jobs.len()
            invariant
                i <= self.jobs@.len(),
                forall|k: int| 0 <= k < i ==> (#[trigger] self.jobs@[k]).id != id,
            decreases self.jobs@.len() - i,
        {
            if self.jobs[i].id == id {
                return Some(i);
            }
            i += 1;
        }
        None
    }

    /// Records a termination report: sets the reported terminal state,
    /// the stop time and the log, and the test verdict where one was
    /// reported. A row already terminal keeps its state and verdict and
    /// only has the log and stop time recorded. Returns whether the row
    /// was found.
    pub fn terminate(
        &mut self,
        job_id: u128,
        new_state: JobState,
        log: Log,
        test_result: Option<TestResult>,
        now: u64,
    ) -> (r: bool)
        requires
            old(self).wf(),
            new_state.spec_terminal(),
            log.wf(),
            test_result is Some ==> new_state is Completed,
        ensures
            final(self).wf(),
            terminate_post(*old(self), *final(self), job_id, new_state, log, test_result, now, r),
            states_monotone(old(self).jobs@, final(self).jobs@),
    {
        let i = match self.find_job_by_id(job_id) {
            None => {
                return false;
            },
            Some(i) => i,
        };
        let row = &self.jobs[i];
        let updated = if row.state.is_terminal() {
            Job {
                id: row.id,
                owner: row.owner,
                job_type: row.job_type,
                commit: row.commit.clone(),
                state: row.state,
                submit_ts: row.submit_ts,
                start_ts: row.start_ts,
                stop_ts: Some(now),
                run_log: Some(log),
                test_result: row.test_result,
            }
        } else {
            Job {
                id: row.id,
                owner: row.owner,
                job_type: row.job_type,
                commit: row.commit.clone(),
                state: new_state,
                submit_ts: row.submit_ts,
                start_ts: row.start_ts,
                stop_ts: Some(now),
                run_log: Some(log),
                test_result,
            }
        };
        proof {
            assert(updated == job_terminated(
                old(self).jobs@[i as int],
                new_state,
                log,
                test_result,
                now,
            ));
        }
        self.jobs[i] = updated;
        proof {
            lemma_wf_after_jobs_change(*old(self), *self);
        }
        true
    }

    /// Whether the job row with this id, if any, is terminal.
    fn job_is_terminal(&self, id: u128) -> (r: bool)
        requires
            self.wf(),
        ensures
            r == terminal_in(self.jobs@, id),
    {
        let mut i: usize = 0;
        while i < self.jobs.len()
            invariant
                self.wf(),
                i <= self.jobs@.len(),
                forall|k: int| 0 <= k < i ==> (#[trigger] self.jobs@[k]).id != id,
            decreases self.jobs@.len() - i,
        {
            if self.jobs[i].id == id {
                let t = self.jobs[i].state.is_terminal();
                proof {
                    if !t {
                        assert forall|k: int|
                            0 <= k < self.jobs@.len() && (#[trigger] self.jobs@[k]).id
                                == id implies !self.jobs@[k].state.spec_terminal() by {
                            assert(k == i as int);
                        }
                    }
                }
                return t;
            }
            i += 1;
        }
        false
    }

    /// Returns the subset of the given ids whose jobs are currently in
    /// a terminal state, in the order given. Used by runners to learn
    /// of externally canceled jobs.
    pub fn terminated_subset(&self, ids: &Vec<u128>) -> (r: Vec<u128>)
        requires
            self.wf(),
        ensures
            r@ == ids@.filter(|id: u128| terminal_in(self.jobs@, id)),
    {
        let mut out: Vec<u128> = Vec::new();
        let mut i: usize = 0;
        while i < ids.len()
            invariant
                self.wf(),
                i <= ids@.len(),
                out@ == ids@.take(i as int).filter(|id: u128| terminal_in(self.jobs@, id)),
            decreases ids@.len() - i,
        {
            proof {
                broadcast use Seq::lemma_filter_len_push;
                broadcast use Seq::lemma_filter_push;

                assert(ids@.take(i as int + 1) =~= ids@.take(i as int).push(ids@[i as int]));
            }
            if self.job_is_terminal(ids[i]) {
                out.push(ids[i]);
            }
            i += 1;
        }
        proof {
            assert(ids@.take(ids@.len() as int) =~= ids@);
        }
        out
    }

    /// Resolves a job reference for one user: the row must carry the
    /// referenced id, belong to the user, and be of a type with the
    /// referenced spec name.
    fn resolve_ref(&self, user_id: u128, job: &JobReference) -> (r: Option<usize>)
        requires
            self.wf(),
        ensures
            r is Some <==> ref_found(*self, user_id, *job),
            r matches Some(i) ==> i < self.jobs@.len() && job_matches_ref(
                *self,
                self.jobs@[i as int],
                user_id,
                job.job_id,
                job.job_spec@,
            ),
    {
        let i = match self.find_job_by_id(job.job_id) {
            None => {
                proof {
                    assert forall|k: int|
                        0 <= k < self.jobs@.len() implies !job_matches_ref(
                        *self,
                        #[trigger] self.jobs@[k],
                        user_id,
                        job.job_id,
                        job.job_spec@,
                    ) by {
                        assert(self.jobs@[k].id != job.job_id);
                    }
                }
                return None;
            },
            Some(i) => i,
        };
        proof {
            assert forall|k: int|
                0 <= k < self.jobs@.len() && k != i as int implies (#[trigger] self.jobs@[k]).id
                != job.job_id by {}
        }
        if self.jobs[i].owner != user_id {
            return None;
        }
        let tid = self.jobs[i].job_type;
        let sp = self.spec_by_type_id(tid);
        if sp == job.job_spec {
            Some(i)
        } else {
            proof {
                let t = choose|t: int|
                    0 <= t < self.job_types@.len() && (#[trigger] self.job_types@[t]).id == tid
                        && sp@ == self.job_types@[t].spec@;
                assert forall|u: int|
                    0 <= u < self.job_types@.len() && (#[trigger] self.job_types@[u]).id
                        == tid implies self.job_types@[u].spec@ != job.job_spec@ by {
                    assert(u == t);
                }
            }
            None
        }
    }

    /// Reports the referenced job of this user, or exactly the
    /// not-found reply when the reference resolves to none.
    pub fn status(&self, user_id: u128, job: &JobReference) -> (r: Result<JobStatus, CtlError>)
        requires
            self.wf(),
        ensures
            status_post(*self, user_id, *job, r),
    {
        match self.resolve_ref(user_id, job) {
            Some(i) => Ok(
                JobStatus {
                    job_spec: job.job_spec.clone(),
                    job_id: job.job_id,
                    result: self.jobs[i].result(),
                },
            ),
            None => Err(CtlError::NotFound(notfound_reply(job))),
        }
    }

    /// Cancels the referenced job of this user: a live row moves to
    /// `Canceled`; a terminal row is left as it is. Either way the
    /// row's new status comes back.
    pub fn cancel(&mut self, user_id: u128, job: &JobReference, now: u64) -> (r: Result<
        JobStatus,
        CtlError,
    >)
        requires
            old(self).wf(),
        ensures
            final(self).wf(),
            cancel_post(*old(self), *final(self), user_id, *job, now, r),
            states_monotone(old(self).jobs@, final(self).jobs@),
    {
        let i = match self.resolve_ref(user_id, job) {
            None => {
                return Err(CtlError::NotFound(notfound_reply(job)));
            },
            Some(i) => i,
        };
        if self.jobs[i].state.is_terminal() {
            proof {
                assert(self.jobs@.update(i as int, job_canceled(self.jobs@[i as int], now))
                    =~= self.jobs@);
            }
            return Ok(
                JobStatus {
                    job_spec: job.job_spec.clone(),
                    job_id: job.job_id,
                    result: self.jobs[i].result(),
                },
            );
        }
        let row = &self.jobs[i];
        let updated = Job {
            id: row.id,
            owner: row.owner,
            job_type: row.job_type,
            commit: row.commit.clone(),
            state: JobState::Canceled,
            submit_ts: row.submit_ts,
            start_ts: row.start_ts,
            stop_ts: Some(now),
            run_log: None,
            test_result: None,
        };
        proof {
            assert(old(self).jobs@[i as int].wf());
            assert(updated == job_canceled(old(self).jobs@[i as int], now));
        }
        let result_now = updated.result();
        self.jobs[i] = updated;
        proof {
            lemma_wf_after_jobs_change(*old(self), *self);
        }
        Ok(JobStatus { job_spec: job.job_spec.clone(), job_id: job.job_id, result: result_now })
    }

    /// Whether the type with id `tid` exists and carries spec name `sp`.
    fn type_has_spec(&self, tid: u128, sp: &String) -> (r: bool)
        requires
            self.wf(),
        ensures
            r == type_spec_is(*self, tid, sp@),
    {
        let mut t: usize = 0;
        while t < self.job_types.len()
            invariant
                self.wf(),
                t <= self.job_types@.len(),
                forall|k: int| 0 <= k < t ==> (#[trigger] self.job_types@[k]).id != tid,
            decreases self.job_types@.len() - t,
        {
            if self.job_types[t].id == tid {
                let eq = self.job_types[t].spec == *sp;
                proof {
                    if !eq {
                        assert forall|u: int|
                            0 <= u < self.job_types@.len() && (#[trigger] self.job_types@[u]).id
                                == tid implies self.job_types@[u].spec@ != sp@ by {
                            assert(u == t as int);
                        }
                    }
                }
                return eq;
            }
            t += 1;
        }
        false
    }

    /// First position in `sorted` (a row-index sequence in history
    /// order) that the row `idx` names should come before.
    fn insert_pos(&self, sorted: &Vec<usize>, idx: usize) -> (p: usize)
        requires
            idx < self.jobs@.len(),
            forall|k: int| 0 <= k < sorted@.len() ==> (#[trigger] sorted@[k]) < self.jobs@.len(),
        ensures
            p <= sorted@.len(),
            forall|q: int|
                0 <= q < p ==> !later_first(
                    self.jobs@[idx as int],
                    self.jobs@[(#[trigger] sorted@[q]) as int],
                ),
            p < sorted@.len() ==> later_first(
                self.jobs@[idx as int],
                self.jobs@[sorted@[p as int] as int],
            ),
    {
        let mut p: usize = 0;
        while p < sorted.len()
            invariant
                p <= sorted@.len(),
                idx < self.jobs@.len(),
                forall|k: int| 0 <= k < sorted@.len() ==> (#[trigger] sorted@[k])
                    < self.jobs@.len(),
                forall|q: int|
                    0 <= q < p ==> !later_first(
                        self.jobs@[idx as int],
                        self.jobs@[(#[trigger] sorted@[q]) as int],
                    ),
            decreases sorted@.len() - p,
        {
            if later_first_exec(&self.jobs[idx], &self.jobs[sorted[p]]) {
                return p;
            }
            p += 1;
        }
        p
    }

    /// All the user's jobs of one spec name, most recent first.
    fn history_for_spec(&self, user_id: u128, sp: &String) -> (r: Vec<JobStatus>)
        requires
            self.wf(),
        ensures
            history_some_post(*self, user_id, sp@, r@),
    {
        let ghost pred = |j: Job| j.owner == user_id && type_spec_is(*self, j.job_type, sp@);
        let mut idxs: Vec<usize> = Vec::new();
        let mut i: usize = 0;
        while i < self.jobs.len()
            invariant
                self.wf(),
                i <= self.jobs@.len(),
                pred == (|j: Job| j.owner == user_id && type_spec_is(*self, j.job_type, sp@)),
                idxs@.len() == self.jobs@.take(i as int).filter(pred).len(),
                forall|k: int|
                    0 <= k < idxs@.len() ==> (#[trigger] idxs@[k]) < self.jobs@.len()
                        && self.jobs@[idxs@[k] as int] == self.jobs@.take(i as int).filter(pred)[k],
            decreases self.jobs@.len() - i,
        {
            proof {
                broadcast use Seq::lemma_filter_push;

                assert(self.jobs@.take(i as int + 1) =~= self.jobs@.take(i as int).push(
                    self.jobs@[i as int],
                ));
            }
            if self.jobs[i].owner == user_id && self.type_has_spec(self.jobs[i].job_type, sp) {
                idxs.push(i);
            }
            i += 1;
        }
        proof {
            assert(self.jobs@.take(self.jobs@.len() as int) =~= self.jobs@);
        }
        let ghost sel = self.jobs@.filter(pred);
        let mut sorted: Vec<usize> = Vec::new();
        let mut m: usize = 0;
        while m < idxs.len()
            invariant
                self.wf(),
                m <= idxs@.len(),
                idxs@.len() == sel.len(),
                forall|k: int|
                    0 <= k < idxs@.len() ==> (#[trigger] idxs@[k]) < self.jobs@.len()
                        && self.jobs@[idxs@[k] as int] == sel[k],
                sorted@.len() == sort_later_first(sel.take(m as int)).len(),
                forall|k: int|
                    0 <= k < sorted@.len() ==> (#[trigger] sorted@[k]) < self.jobs@.len()
                        && self.jobs@[sorted@[k] as int] == sort_later_first(sel.take(m as int))[k],
            decreases idxs@.len() - m,
        {
            let idx = idxs[m];
            let p = self.insert_pos(&sorted, idx);
            let ghost pre_sorted = sorted@;
            let ghost pre_spec = sort_later_first(sel.take(m as int));
            sorted.insert(p, idx);
            proof {
                assert forall|q: int| 0 <= q < p as int implies !later_first(
                    self.jobs@[idx as int],
                    #[trigger] pre_spec[q],
                ) by {
                    assert(self.jobs@[pre_sorted[q] as int] == pre_spec[q]);
                }
                if (p as int) < pre_spec.len() {
                    assert(self.jobs@[pre_sorted[p as int] as int] == pre_spec[p as int]);
                }
                lemma_insert_position(pre_spec, self.jobs@[idx as int], p as int);
                assert(sel.take(m as int + 1).drop_last() =~= sel.take(m as int));
                assert(sel.take(m as int + 1).last() == sel[m as int]);
                assert(sort_later_first(sel.take(m as int + 1)) == insert_later_first(
                    pre_spec,
                    self.jobs@[idx as int],
                ));
                assert(sorted@ =~= pre_sorted.subrange(0, p as int).push(idx) + pre_sorted.subrange(
                    p as int,
                    pre_sorted.len() as int,
                ));
                assert forall|k: int| 0 <= k < sorted@.len() implies (#[trigger] sorted@[k])
                    < self.jobs@.len() && self.jobs@[sorted@[k] as int] == sort_later_first(
                    sel.take(m as int + 1),
                )[k] by {
                    assert(sort_later_first(sel.take(m as int + 1)) == pre_spec.subrange(0, p as int)
                        + seq![self.jobs@[idx as int]] + pre_spec.subrange(
                        p as int,
                        pre_spec.len() as int,
                    ));
                    if k < p as int {
                        assert(sorted@[k] == pre_sorted[k]);
                    } else if k == p as int {
                        assert(sorted@[k] == idx);
                    } else {
                        assert(sorted@[k] == pre_sorted[k - 1]);
                    }
                }
            }
            m += 1;
        }
        proof {
            assert(sel.take(sel.len() as int) =~= sel);
        }
        let mut out: Vec<JobStatus> = Vec::new();
        let mut k: usize = 0;
        while k < sorted.len()
            invariant
                self.wf(),
                k <= sorted@.len(),
                sorted@.len() == sort_later_first(sel).len(),
                forall|q: int|
                    0 <= q < sorted@.len() ==> (#[trigger] sorted@[q]) < self.jobs@.len()
                        && self.jobs@[sorted@[q] as int] == sort_later_first(sel)[q],
                out@.len() == k,
                forall|q: int|
                    0 <= q < k ==> (#[trigger] out@[q]).job_id == sort_later_first(sel)[q].id
                        && out@[q].result == sort_later_first(sel)[q].spec_result()
                        && out@[q].job_spec@ == sp@,
            decreases sorted@.len() - k,
        {
            let idx = sorted[k];
            out.push(
                JobStatus {
                    job_spec: sp.clone(),
                    job_id: self.jobs[idx].id,
                    result: self.jobs[idx].result(),
                },
            );
            k += 1;
        }
        out
    }

    /// For each job type in store order, the user's most recent job of
    /// that type, if any.
    fn history_latest(&self, user_id: u128) -> (r: Vec<JobStatus>)
        requires
            self.wf(),
        ensures
            r@ == history_all_upto(*self, user_id, self.job_types@.len() as int),
    {
        let mut out: Vec<JobStatus> = Vec::new();
        let mut t: usize = 0;
        while t < self.job_types.len()
            invariant
                self.wf(),
                t <= self.job_types@.len(),
                out@ == history_all_upto(*self, user_id, t as int),
            decreases self.job_types@.len() - t,
        {
            let tid = self.job_types[t].id;
            let mut best: Option<usize> = None;
            let mut i: usize = 0;
            while i < self.jobs.len()
                invariant
                    self.wf(),
                    i <= self.jobs@.len(),
                    match best {
                        Option::None => best_job(self.jobs@.take(i as int), user_id, tid)
                            is None,
                        Option::Some(b) => (b as int) < i && best_job(
                            self.jobs@.take(i as int),
                            user_id,
                            tid,
                        ) == Some(self.jobs@[b as int]),
                    },
                decreases self.jobs@.len() - i,
            {
                proof {
                    assert(self.jobs@.take(i as int + 1).drop_last() =~= self.jobs@.take(i as int));
                    assert(self.jobs@.take(i as int + 1).last() == self.jobs@[i as int]);
                }
                if self.jobs[i].owner == user_id && self.jobs[i].job_type == tid {
                    best = match best {
                        None => Some(i),
                        Some(b) => {
                            if later_first_exec(&self.jobs[i], &self.jobs[b]) {
                                Some(i)
                            } else {
                                Some(b)
                            }
                        },
                    };
                }
                i += 1;
            }
            proof {
                assert(self.jobs@.take(self.jobs@.len() as int) =~= self.jobs@);
            }
            match best {
                Some(b) => {
                    out.push(
                        JobStatus {
                            job_spec: self.job_types[t].spec.clone(),
                            job_id: self.jobs[b].id,
                            result: self.jobs[b].result(),
                        },
                    );
                },
                None => {},
            }
            proof {
                assert(out@ =~= history_all_upto(*self, user_id, t as int + 1));
            }
            t += 1;
        }
        out
    }

    /// Job history for one user. With a spec name: all that user's jobs
    /// of that spec, most recent first. Without: the most recent job
    /// per job type, in store order of the types.
    pub fn history(&self, user_id: u128, spec: Option<&String>) -> (r: Vec<JobStatus>)
        requires
            self.wf(),
        ensures
            (match spec {
                Option::Some(sp) => history_some_post(*self, user_id, sp@, r@),
                Option::None => r@ == history_all_upto(
                    *self,
                    user_id,
                    self.job_types@.len() as int,
                ),
            }),
    {
        match spec {
            Some(sp) => self.history_for_spec(user_id, sp),
            None => self.history_latest(user_id),
        }
    }

    /// Returns the stored log of the referenced job of this user: the
    /// recorded log once one was stored, an empty untruncated log for a
    /// job that has none yet, and exactly the not-found reply when the
    /// reference resolves to none.
    pub fn log(&self, user_id: u128, job: &JobReference) -> (r: Result<Log, CtlError>)
        requires
            self.wf(),
        ensures
            log_post(*self, user_id, *job, r),
    {
        match self.resolve_ref(user_id, job) {
            Some(i) => match &self.jobs[i].run_log {
                Some(stored) => Ok(stored.clone()),
                None => Ok(Log::empty(false)),
            },
            None => Err(CtlError::NotFound(notfound_reply(job))),
        }
    }

    /// Looks a user up by name, as the control channel does for the
    /// connecting peer.
    pub fn find_user_by_name(&self, name: &String) -> (r: Option<SqlUser>)
        ensures
            r is Some <==> self.has_user_name(name@),
            r matches Some(u) ==> u.name@ == name@ && exists|i: int|
                0 <= i < self.users@.len() && #[trigger] self.users@[i] == u,
    {
        let mut i: usize = 0;
        while i < self.users.len()
            invariant
                i <= self.users@.len(),
                forall|k: int| 0 <= k < i ==> (#[trigger] self.users@[k]).name@ != name@,
            decreases self.users@.len() - i,
        {
            if self.users[i].name == *name {
                return Some(self.users[i].clone());
            }
            i += 1;
        }
        None
    }
}

} // verus!
