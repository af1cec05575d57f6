//! Laws relating the store's operations: dispatch order, the status a
//! fresh submission shows, what cancellation leaves in the history,
//! and the quota boundary.

use vstd::prelude::*;

use crate::ctl::{CtlError, JobReference, JobStatus};
use crate::store::{
    DispatchedJob, Job, Store, SubmitError, active_count, dequeue_choice_ok, dequeue_post,
    earlier_submitted, insert_later_first, insert_post, job_canceled, new_submitted_job,
    recent_count, ref_found, sort_later_first, status_post, type_spec_is, user_spec_jobs,
};

verus! {

/// Lifecycle discipline composes: across any chain of store
/// operations, each job's state transitions form a forward-only walk
/// along `Submitted -> Started -> terminal`, and a terminal state is
/// never followed by another state change.
pub proof fn lemma_states_monotone_transitive(a: Seq<Job>, b: Seq<Job>, c: Seq<Job>)
    requires
        crate::store::states_monotone(a, b),
        crate::store::states_monotone(b, c),
    ensures
        crate::store::states_monotone(a, c),
{
}

/// A started job whose runner vanished stays started. No report ever
/// arrives for it, and the next three lemmas say that nothing else can
/// move it: a submission never touches existing rows, a dequeue only
/// moves a submitted row, and a termination or cancellation only
/// rewrites the row whose id it names. Closing a link performs no
/// store operation at all, so such a job remains `Started` until an
/// operation names its id.
pub proof fn lemma_insert_preserves_rows(
    pre: Store,
    post: Store,
    user_id: u128,
    spec: Seq<char>,
    commit: String,
    new_id: u128,
    now: u64,
    max_active: u32,
    max_hour: u32,
    r: Result<u128, SubmitError>,
)
    requires
        insert_post(pre, post, user_id, spec, commit, new_id, now, max_active, max_hour, r),
    ensures
        forall|i: int| 0 <= i < pre.jobs@.len() ==> post.jobs@[i] == #[trigger] pre.jobs@[i],
{
}

/// A dequeue leaves every row that is not submitted - in particular
/// every started row - exactly as it was.
pub proof fn lemma_dequeue_preserves_unsubmitted(
    pre: Store,
    post: Store,
    now: u64,
    r: Option<DispatchedJob>,
)
    requires
        dequeue_post(pre, post, now, r),
    ensures
        forall|i: int|
            0 <= i < pre.jobs@.len() && !((#[trigger] pre.jobs@[i]).state is Submitted)
                ==> post.jobs@[i] == pre.jobs@[i],
{
}

/// A termination report rewrites only the row whose id it names; every
/// other row is exactly as it was. `job_stopped` records through this
/// same relation, so the claim covers it too.
pub proof fn lemma_terminate_preserves_others(
    pre: Store,
    post: Store,
    job_id: u128,
    new_state: crate::store::JobState,
    log: crate::proto::Log,
    test_result: Option<crate::store::TestResult>,
    now: u64,
    r: bool,
)
    requires
        crate::store::terminate_post(pre, post, job_id, new_state, log, test_result, now, r),
    ensures
        forall|i: int|
            0 <= i < pre.jobs@.len() && (#[trigger] pre.jobs@[i]).id != job_id ==> post.jobs@[i]
                == pre.jobs@[i],
{
}

/// A cancellation rewrites only the row its reference names; every
/// other row is exactly as it was.
pub proof fn lemma_cancel_preserves_others(
    pre: Store,
    post: Store,
    user_id: u128,
    jref: JobReference,
    now: u64,
    r: Result<JobStatus, CtlError>,
)
    requires
        crate::store::cancel_post(pre, post, user_id, jref, now, r),
    ensures
        forall|i: int|
            0 <= i < pre.jobs@.len() && (#[trigger] pre.jobs@[i]).id != jref.job_id
                ==> post.jobs@[i] == pre.jobs@[i],
{
}

/// Filtering a sequence in which exactly one element satisfies the
/// predicate yields exactly that element.
pub proof fn lemma_filter_single<A>(s: Seq<A>, pred: spec_fn(A) -> bool, i: int)
    requires
        0 <= i < s.len(),
        pred(s[i]),
        forall|j: int| 0 <= j < s.len() && j != i ==> !pred(#[trigger] s[j]),
    ensures
        s.filter(pred) =~= seq![s[i]],
    decreases s.len(),
{
    reveal(Seq::filter);
    if s.len() > 0 {
        let rest = s.drop_last();
        if i == s.len() - 1 {
            assert forall|j: int| 0 <= j < rest.len() implies !pred(#[trigger] rest[j]) by {
                assert(rest[j] == s[j]);
            }
            rest.lemma_all_neg_filter_empty(pred);
            assert(s.filter(pred) =~= seq![s[i]]);
        } else {
            assert(!pred(s.last()));
            lemma_filter_single(rest, pred, i);
        }
    }
}

/// FIFO dispatch: of two successive dequeues, the first hands out a
/// job submitted no later than the second. Both dispatched rows exist
/// in the first store; the property speaks of their submission times
/// there.
pub proof fn lemma_dequeue_fifo(
    s0: Store,
    s1: Store,
    s2: Store,
    now1: u64,
    now2: u64,
    d1: DispatchedJob,
    d2: DispatchedJob,
)
    requires
        s0.wf(),
        dequeue_post(s0, s1, now1, Some(d1)),
        dequeue_post(s1, s2, now2, Some(d2)),
    ensures
        forall|i1: int, i2: int|
            #![trigger s0.jobs@[i1], s0.jobs@[i2]]
            0 <= i1 < s0.jobs@.len() && s0.jobs@[i1].id == d1.job_id && 0 <= i2 < s0.jobs@.len()
                && s0.jobs@[i2].id == d2.job_id ==> s0.jobs@[i1].submit_ts
                <= s0.jobs@[i2].submit_ts,
{
    let j1 = choose|j1: int|
        #![auto]
        dequeue_choice_ok(s0.jobs@, j1) && s1.jobs@ == s0.jobs@.update(
            j1,
            crate::store::job_started(s0.jobs@[j1], now1),
        ) && crate::store::dispatched_matches(s0, s0.jobs@[j1], d1);
    let j2 = choose|j2: int|
        #![auto]
        dequeue_choice_ok(s1.jobs@, j2) && s2.jobs@ == s1.jobs@.update(
            j2,
            crate::store::job_started(s1.jobs@[j2], now2),
        ) && crate::store::dispatched_matches(s1, s1.jobs@[j2], d2);
    assert(s1.jobs@[j1].state is Started);
    assert(j2 != j1);
    assert(s1.jobs@[j2] == s0.jobs@[j2]);
    assert(s0.jobs@[j2].state is Submitted);
    assert(earlier_submitted(s0.jobs@[j1], s0.jobs@[j2]));
    assert forall|i1: int, i2: int|
        0 <= i1 < s0.jobs@.len() && (#[trigger] s0.jobs@[i1]).id == d1.job_id && 0 <= i2
            < s0.jobs@.len() && (#[trigger] s0.jobs@[i2]).id == d2.job_id implies
        s0.jobs@[i1].submit_ts <= s0.jobs@[i2].submit_ts by {
        assert(i1 == j1);
        assert(i2 == j2);
    }
}

/// A fresh submission reads back as pending: after `insert_submission`
/// returns the new id, `status` on a reference naming that id and spec
/// answers `Pending`.
pub proof fn lemma_submit_then_status(
    pre: Store,
    mid: Store,
    user_id: u128,
    commit: String,
    new_id: u128,
    now: u64,
    max_active: u32,
    max_hour: u32,
    jref: JobReference,
    r: Result<JobStatus, CtlError>,
)
    requires
        pre.wf(),
        mid.wf(),
        insert_post(
            pre,
            mid,
            user_id,
            jref.job_spec@,
            commit,
            new_id,
            now,
            max_active,
            max_hour,
            Ok(new_id),
        ),
        jref.job_id == new_id,
        status_post(mid, user_id, jref, r),
    ensures
        r matches Ok(st) && st.result is Pending && st.job_id == new_id,
{
    assert(pre.has_spec(jref.job_spec@));
    assert(!(active_count(pre.jobs@, user_id) >= max_active));
    assert(!(recent_count(pre.jobs@, user_id, now) >= max_hour));
    assert(!pre.has_job(new_id));
    let t = choose|t: int|
        0 <= t < pre.job_types@.len() && (#[trigger] pre.job_types@[t]).spec@ == jref.job_spec@
            && mid.jobs@ == pre.jobs@.push(
            new_submitted_job(new_id, user_id, pre.job_types@[t].id, commit, now),
        );
    let newrow = mid.jobs@.len() - 1;
    assert(mid.jobs@[newrow].id == new_id);
    assert(mid.job_types@[t] == pre.job_types@[t]);
    assert(type_spec_is(mid, mid.jobs@[newrow].job_type, jref.job_spec@));
    assert(crate::store::job_matches_ref(
        mid,
        mid.jobs@[newrow],
        user_id,
        jref.job_id,
        jref.job_spec@,
    ));
    assert(ref_found(mid, user_id, jref));
    let i = choose|i: int|
        0 <= i < mid.jobs@.len() && crate::store::job_matches_ref(
            mid,
            #[trigger] mid.jobs@[i],
            user_id,
            jref.job_id,
            jref.job_spec@,
        ) && r->Ok_0.result == mid.jobs@[i].spec_result();
    assert(i == newrow);
    assert(mid.jobs@[i].state is Submitted);
}

/// A job never picked up and then explicitly canceled is the single
/// record its history shows, as `Canceled`: when the referenced job is
/// the user's only row of this spec and still submitted, after `cancel`
/// a history query over that spec yields exactly one record, carrying
/// the job's id and `Canceled`.
pub proof fn lemma_cancel_then_history(
    pre: Store,
    post: Store,
    user_id: u128,
    jref: JobReference,
    now: u64,
    st: JobStatus,
    h: Seq<JobStatus>,
)
    requires
        pre.wf(),
        post.wf(),
        ref_found(pre, user_id, jref),
        forall|i: int|
            0 <= i < pre.jobs@.len() && (#[trigger] pre.jobs@[i]).owner == user_id && type_spec_is(
                pre,
                pre.jobs@[i].job_type,
                jref.job_spec@,
            ) ==> pre.jobs@[i].id == jref.job_id && pre.jobs@[i].state is Submitted,
        crate::store::cancel_post(pre, post, user_id, jref, now, Ok(st)),
        crate::store::history_some_post(post, user_id, jref.job_spec@, h),
    ensures
        h.len() == 1,
        h[0].job_id == jref.job_id,
        h[0].result is Canceled,
{
    let p = choose|p: int|
        #![auto]
        0 <= p < pre.jobs@.len() && crate::store::job_matches_ref(
            pre,
            pre.jobs@[p],
            user_id,
            jref.job_id,
            jref.job_spec@,
        ) && post.jobs@ == pre.jobs@.update(p, job_canceled(pre.jobs@[p], now))
            && st.result == job_canceled(pre.jobs@[p], now).spec_result();
    let row = job_canceled(pre.jobs@[p], now);
    assert(pre.jobs@[p].state is Submitted);
    assert(row.state is Canceled);
    let pred = |j: Job| j.owner == user_id && type_spec_is(post, j.job_type, jref.job_spec@);
    assert(pred(post.jobs@[p])) by {
        let t = choose|t: int|
            0 <= t < pre.job_types@.len() && (#[trigger] pre.job_types@[t]).id
                == pre.jobs@[p].job_type && pre.job_types@[t].spec@ == jref.job_spec@;
        assert(post.job_types@[t] == pre.job_types@[t]);
    }
    assert forall|j: int| 0 <= j < post.jobs@.len() && j != p implies !pred(
        #[trigger] post.jobs@[j],
    ) by {
        assert(post.jobs@[j] == pre.jobs@[j]);
        if pred(post.jobs@[j]) {
            assert(type_spec_is(pre, pre.jobs@[j].job_type, jref.job_spec@)) by {
                let t = choose|t: int|
                    0 <= t < post.job_types@.len() && (#[trigger] post.job_types@[t]).id
                        == post.jobs@[j].job_type && post.job_types@[t].spec@ == jref.job_spec@;
                assert(pre.job_types@[t] == post.job_types@[t]);
            }
            assert(pre.jobs@[j].id == jref.job_id);
            assert(pre.jobs@[p].id == jref.job_id);
            assert(false);
        }
    }
    lemma_filter_single(post.jobs@, pred, p);
    assert(user_spec_jobs(post, user_id, jref.job_spec@) == seq![row]);
    let js = sort_later_first(seq![row]);
    assert(seq![row].drop_last() =~= Seq::<Job>::empty());
    assert(sort_later_first(Seq::<Job>::empty()) == Seq::<Job>::empty());
    assert(js == insert_later_first(Seq::<Job>::empty(), row));
    assert(js =~= seq![row]);
    assert(h.len() == 1);
    assert(h[0].job_id == row.id);
    assert(h[0].result == row.spec_result());
}

/// The quota boundary: with the spec name known, the id fresh, and the
/// user's active jobs one under the concurrency quota, a submission is
/// refused only by the rolling-hour quota - it succeeds whenever the
/// hour count is under its bound, and is refused as `TimeQuota` exactly
/// otherwise.
pub proof fn lemma_quota_boundary(
    pre: Store,
    post: Store,
    user_id: u128,
    spec: Seq<char>,
    commit: String,
    new_id: u128,
    now: u64,
    max_active: u32,
    max_hour: u32,
    r: Result<u128, SubmitError>,
)
    requires
        insert_post(pre, post, user_id, spec, commit, new_id, now, max_active, max_hour, r),
        pre.has_spec(spec),
        max_active >= 1,
        active_count(pre.jobs@, user_id) == max_active - 1,
        !pre.has_job(new_id),
    ensures
        recent_count(pre.jobs@, user_id, now) < max_hour ==> r == Ok::<u128, SubmitError>(new_id),
        recent_count(pre.jobs@, user_id, now) >= max_hour ==> (r matches Err(
            SubmitError::TimeQuota { count, max },
        ) && count == crate::store::spec_clip_count(recent_count(pre.jobs@, user_id, now)) && max
            == max_hour),
{
}

/// Filtering after an update that flips one element from satisfying
/// the predicate to not satisfying it shrinks the filtered length by
/// one.
pub proof fn lemma_filter_update_flip<A>(s: Seq<A>, pred: spec_fn(A) -> bool, i: int, x: A)
    requires
        0 <= i < s.len(),
        pred(s[i]),
        !pred(x),
    ensures
        s.update(i, x).filter(pred).len() == s.filter(pred).len() - 1,
    decreases s.len(),
{
    reveal(Seq::filter);
    let s2 = s.update(i, x);
    if i == s.len() - 1 {
        assert(s2.drop_last() =~= s.drop_last());
        assert(s2.last() == x);
        assert(s.last() == s[i]);
    } else {
        assert(s2.drop_last() =~= s.drop_last().update(i, x));
        lemma_filter_update_flip(s.drop_last(), pred, i, x);
        assert(s2.last() == s.last());
    }
}

/// Recording a termination for a live job of this user frees one slot
/// of the concurrency quota.
pub proof fn lemma_terminate_frees_quota(
    pre: Store,
    post: Store,
    job_id: u128,
    new_state: crate::store::JobState,
    log: crate::proto::Log,
    test_result: Option<crate::store::TestResult>,
    now: u64,
    user_id: u128,
)
    requires
        pre.wf(),
        new_state.spec_terminal(),
        crate::store::terminate_post(pre, post, job_id, new_state, log, test_result, now, true),
        forall|i: int|
            0 <= i < pre.jobs@.len() && (#[trigger] pre.jobs@[i]).id == job_id
                ==> pre.jobs@[i].owner == user_id && !pre.jobs@[i].state.spec_terminal(),
    ensures
        active_count(post.jobs@, user_id) == active_count(pre.jobs@, user_id) - 1,
{
    let i = choose|i: int|
        #![auto]
        0 <= i < pre.jobs@.len() && pre.jobs@[i].id == job_id && post.jobs@ == pre.jobs@.update(
            i,
            crate::store::job_terminated(pre.jobs@[i], new_state, log, test_result, now),
        );
    let pred = |j: Job| crate::store::counts_active(j, user_id);
    assert(pred(pre.jobs@[i]));
    let x = crate::store::job_terminated(pre.jobs@[i], new_state, log, test_result, now);
    assert(x.state == new_state);
    assert(!pred(x));
    lemma_filter_update_flip(pre.jobs@, pred, i, x);
}

} // verus!
