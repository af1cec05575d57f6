use gradecope::coordinator::{job_stopped, request_job, request_cancellation_notifications};
use gradecope::ctl::{JobReference, JobResult};
use gradecope::proto::{JobResponse, JobResult as RunnerResult, JobTermination, Log};
use gradecope::store::{JobState, Store, SubmitError, TestResult};
use gradecope::submit::{Submission, process_submission, submission_reply, submit};

const ALICE: u128 = 1;
const HELLO_TYPE: u128 = 100;

fn store_with_alice() -> Store {
    let mut s = Store::new();
    assert!(s.add_user(ALICE, String::from("alice")));
    assert!(s.add_job_type(HELLO_TYPE, String::from("hello")));
    s
}

fn submission(commit: &str, spec: &str) -> Submission {
    Submission {
        user: String::from("alice"),
        commit: String::from(commit),
        spec: String::from(spec),
    }
}

fn alice() -> gradecope::store::SqlUser {
    gradecope::store::SqlUser { id: ALICE, name: String::from("alice") }
}

#[test]
fn insert_then_status_is_pending() {
    let mut s = store_with_alice();
    let id = s
        .insert_submission(ALICE, &String::from("hello"), String::from("deadbeef"), 42, 1000, 4, 120)
        .expect("insert should pass the quotas");
    assert_eq!(id, 42);
    let st = s
        .status(ALICE, &JobReference { job_spec: String::from("hello"), job_id: 42 })
        .expect("the fresh job must resolve");
    assert!(matches!(st.result, JobResult::Pending));
    assert_eq!(st.job_id, 42);
    assert_eq!(st.job_spec, "hello");
}

#[test]
fn unknown_spec_is_rejected() {
    let mut s = store_with_alice();
    let r = s.insert_submission(ALICE, &String::from("nope"), String::from("c"), 1, 0, 4, 120);
    match r {
        Err(SubmitError::InvalidSpec { spec }) => assert_eq!(spec, "nope"),
        other => panic!("expected InvalidSpec, got {other:?}"),
    }
}

#[test]
fn happy_path_completes_with_log() {
    let mut s = store_with_alice();
    let id = s
        .insert_submission(ALICE, &String::from("hello"), String::from("deadbeef"), 7, 1000, 4, 120)
        .unwrap();
    let resp = request_job(
        &mut s,
        2000,
        &String::from("/home"),
        &String::from("gradecope-repo"),
    );
    let spec = match resp {
        JobResponse::Job(spec) => spec,
        JobResponse::Unavailable => panic!("a submitted job must be handed out"),
    };
    assert_eq!(spec.id, id);
    assert_eq!(spec.repo_path, "/home/alice/gradecope-repo");
    assert_eq!(spec.commit_hash, "deadbeef");
    assert_eq!(spec.job_spec, "hello");

    let found = job_stopped(
        &mut s,
        JobTermination {
            job_id: id,
            log: Log { log: b"ok".to_vec(), truncated: false },
            result: RunnerResult::Correct,
            now: 3000,
        },
        3000,
    );
    assert!(found);
    let row = &s.jobs[0];
    assert!(matches!(row.state, JobState::Completed));
    assert_eq!(row.test_result, Some(TestResult::Correct));
    let stored = row.run_log.as_ref().unwrap();
    assert_eq!(stored.log, b"ok".to_vec());
    assert!(!stored.truncated);
    let st = s
        .status(ALICE, &JobReference { job_spec: String::from("hello"), job_id: id })
        .unwrap();
    assert!(matches!(st.result, JobResult::Completed));
}

#[test]
fn incorrect_result_shows_incorrect() {
    let mut s = store_with_alice();
    let id = s
        .insert_submission(ALICE, &String::from("hello"), String::from("c1"), 8, 1000, 4, 120)
        .unwrap();
    s.dequeue_one(1500).expect("dequeue must find the job");
    job_stopped(
        &mut s,
        JobTermination {
            job_id: id,
            log: Log { log: vec![], truncated: false },
            result: RunnerResult::Incorrect,
            now: 2000,
        },
        2000,
    );
    let st = s
        .status(ALICE, &JobReference { job_spec: String::from("hello"), job_id: id })
        .unwrap();
    assert!(matches!(st.result, JobResult::Incorrect));
}

#[test]
fn dequeue_is_fifo_by_submit_time() {
    let mut s = store_with_alice();
    s.insert_submission(ALICE, &String::from("hello"), String::from("c2"), 2, 2000, 10, 120)
        .unwrap();
    s.insert_submission(ALICE, &String::from("hello"), String::from("c1"), 1, 1000, 10, 120)
        .unwrap();
    s.insert_submission(ALICE, &String::from("hello"), String::from("c3"), 3, 3000, 10, 120)
        .unwrap();
    let d1 = s.dequeue_one(5000).unwrap();
    let d2 = s.dequeue_one(5001).unwrap();
    let d3 = s.dequeue_one(5002).unwrap();
    assert_eq!(d1.job_id, 1);
    assert_eq!(d2.job_id, 2);
    assert_eq!(d3.job_id, 3);
    assert!(s.dequeue_one(5003).is_none());
}

#[test]
fn dequeue_breaks_ties_by_job_id() {
    let mut s = store_with_alice();
    s.insert_submission(ALICE, &String::from("hello"), String::from("b"), 20, 1000, 10, 120)
        .unwrap();
    s.insert_submission(ALICE, &String::from("hello"), String::from("a"), 10, 1000, 10, 120)
        .unwrap();
    assert_eq!(s.dequeue_one(2000).unwrap().job_id, 10);
    assert_eq!(s.dequeue_one(2001).unwrap().job_id, 20);
}

#[test]
fn concurrency_quota_boundary() {
    let mut s = store_with_alice();
    // Three active jobs; the quota is four: the fourth submission passes.
    for k in 0..3u128 {
        s.insert_submission(ALICE, &String::from("hello"), String::from("c"), k + 1, 1000, 4, 120)
            .unwrap();
    }
    let fourth = s.insert_submission(ALICE, &String::from("hello"), String::from("c"), 50, 1000, 4, 120);
    assert!(fourth.is_ok());
    // Now four active: the fifth is refused with the exact counts.
    let fifth = s.insert_submission(ALICE, &String::from("hello"), String::from("c"), 60, 1000, 4, 120);
    match fifth {
        Err(SubmitError::Quota { active, max }) => {
            assert_eq!(active, 4);
            assert_eq!(max, 4);
        },
        other => panic!("expected Quota, got {other:?}"),
    }
}

#[test]
fn quota_reply_names_the_counts() {
    let r: Result<u128, SubmitError> = Err(SubmitError::Quota { active: 4, max: 4 });
    let reply = submission_reply(&r);
    assert!(reply.contains("Too many active jobs: 4 (user quota is 4)"));
    assert!(reply.starts_with("> gradecope: \x1b[1;31mFailed to submit job\x1b[0m.\r\n"));
}

#[test]
fn hourly_quota_counts_rolling_window() {
    let mut s = store_with_alice();
    let hour = 3_600_000u64;
    s.insert_submission(ALICE, &String::from("hello"), String::from("c"), 1, 0, 10, 2).unwrap();
    s.insert_submission(ALICE, &String::from("hello"), String::from("c"), 2, 10, 10, 2).unwrap();
    // Two submissions within the hour: the third is refused.
    match s.insert_submission(ALICE, &String::from("hello"), String::from("c"), 3, 20, 10, 2) {
        Err(SubmitError::TimeQuota { count, max }) => {
            assert_eq!(count, 2);
            assert_eq!(max, 2);
        },
        other => panic!("expected TimeQuota, got {other:?}"),
    }
    // An hour later both have aged out of the window.
    let r = s.insert_submission(ALICE, &String::from("hello"), String::from("c"), 4, hour + 11, 10, 2);
    assert!(r.is_ok());
}

#[test]
fn duplicate_id_is_internal_error() {
    let mut s = store_with_alice();
    s.insert_submission(ALICE, &String::from("hello"), String::from("c"), 9, 0, 10, 120).unwrap();
    let r = s.insert_submission(ALICE, &String::from("hello"), String::from("c"), 9, 1, 10, 120);
    assert!(matches!(r, Err(SubmitError::Internal)));
}

#[test]
fn cancel_submitted_then_history_shows_single_canceled() {
    let mut s = store_with_alice();
    let id = s
        .insert_submission(ALICE, &String::from("hello"), String::from("c"), 11, 1000, 4, 120)
        .unwrap();
    let jref = JobReference { job_spec: String::from("hello"), job_id: id };
    let st = s.cancel(ALICE, &jref, 2000).expect("cancel must resolve the job");
    assert!(matches!(st.result, JobResult::Canceled));
    let h = s.history(ALICE, Some(&String::from("hello")));
    assert_eq!(h.len(), 1);
    assert_eq!(h[0].job_id, id);
    assert!(matches!(h[0].result, JobResult::Canceled));
}

#[test]
fn external_cancel_reconciles_and_stays_canceled() {
    let mut s = store_with_alice();
    let id = s
        .insert_submission(ALICE, &String::from("hello"), String::from("c"), 12, 1000, 4, 120)
        .unwrap();
    s.dequeue_one(1500).unwrap();
    let jref = JobReference { job_spec: String::from("hello"), job_id: id };
    s.cancel(ALICE, &jref, 1600).unwrap();
    // The runner's reconciliation sees the job as terminal.
    let canceled = request_cancellation_notifications(&s, &vec![id, 999]);
    assert_eq!(canceled, vec![id]);
    // The runner's own termination report arrives later; the state stays Canceled.
    job_stopped(
        &mut s,
        JobTermination {
            job_id: id,
            log: Log { log: b"killed".to_vec(), truncated: false },
            result: RunnerResult::Canceled,
            now: 1700,
        },
        1700,
    );
    let st = s.status(ALICE, &jref).unwrap();
    assert!(matches!(st.result, JobResult::Canceled));
    assert_eq!(s.jobs[0].run_log.as_ref().unwrap().log, b"killed".to_vec());
}

#[test]
fn status_unknown_reference_is_not_found() {
    let s = store_with_alice();
    let jref = JobReference { job_spec: String::from("hello"), job_id: 0xa1a2a3a4b1b2c1c2d1d2d3d4d5d6d7d8 };
    match s.status(ALICE, &jref) {
        Err(gradecope::ctl::CtlError::NotFound(m)) => {
            assert_eq!(m, "Job a1a2a3a4-b1b2-c1c2-d1d2-d3d4d5d6d7d8 with spec hello not found");
        },
        other => panic!("expected NotFound, got {other:?}"),
    }
}

#[test]
fn history_for_spec_is_most_recent_first() {
    let mut s = store_with_alice();
    assert!(s.add_job_type(200, String::from("other")));
    s.insert_submission(ALICE, &String::from("hello"), String::from("c1"), 1, 1000, 10, 120)
        .unwrap();
    s.insert_submission(ALICE, &String::from("hello"), String::from("c2"), 2, 3000, 10, 120)
        .unwrap();
    s.insert_submission(ALICE, &String::from("other"), String::from("c3"), 3, 2000, 10, 120)
        .unwrap();
    s.insert_submission(ALICE, &String::from("hello"), String::from("c4"), 4, 2000, 10, 120)
        .unwrap();
    let h = s.history(ALICE, Some(&String::from("hello")));
    let ids: Vec<u128> = h.iter().map(|st| st.job_id).collect();
    assert_eq!(ids, vec![2, 4, 1]);
    for st in &h {
        assert_eq!(st.job_spec, "hello");
    }
}

#[test]
fn history_without_spec_shows_latest_per_type() {
    let mut s = store_with_alice();
    assert!(s.add_job_type(200, String::from("other")));
    s.insert_submission(ALICE, &String::from("hello"), String::from("c1"), 1, 1000, 10, 120)
        .unwrap();
    s.insert_submission(ALICE, &String::from("hello"), String::from("c2"), 2, 3000, 10, 120)
        .unwrap();
    s.insert_submission(ALICE, &String::from("other"), String::from("c3"), 3, 2000, 10, 120)
        .unwrap();
    let h = s.history(ALICE, None);
    assert_eq!(h.len(), 2);
    assert_eq!(h[0].job_spec, "hello");
    assert_eq!(h[0].job_id, 2);
    assert_eq!(h[1].job_spec, "other");
    assert_eq!(h[1].job_id, 3);
}

#[test]
fn log_of_finished_job_comes_back() {
    let mut s = store_with_alice();
    let id = s
        .insert_submission(ALICE, &String::from("hello"), String::from("c"), 13, 1000, 4, 120)
        .unwrap();
    let jref = JobReference { job_spec: String::from("hello"), job_id: id };
    // No log yet: an empty, untruncated log.
    let empty = s.log(ALICE, &jref).unwrap();
    assert!(empty.log.is_empty());
    assert!(!empty.truncated);
    s.dequeue_one(1500).unwrap();
    job_stopped(
        &mut s,
        JobTermination {
            job_id: id,
            log: Log { log: b"hello log".to_vec(), truncated: false },
            result: RunnerResult::Error,
            now: 2000,
        },
        2000,
    );
    let l = s.log(ALICE, &jref).unwrap();
    assert_eq!(l.log, b"hello log".to_vec());
    assert!(!l.truncated);
}

#[test]
fn submission_with_wrong_user_is_internal() {
    let mut s = store_with_alice();
    let sub = Submission {
        user: String::from("mallory"),
        commit: String::from("c"),
        spec: String::from("hello"),
    };
    let r = process_submission(&mut s, &alice(), &sub, 77, 1000, 4, 120);
    assert!(matches!(r, Err(SubmitError::Internal)));
    assert!(s.jobs.is_empty());
}

#[test]
fn submit_draws_a_fresh_id_and_inserts() {
    let mut s = store_with_alice();
    let r = submit(&mut s, &alice(), &submission("deadbeef", "hello"), 1000, 4, 120);
    let id = r.expect("submission should pass the quotas");
    let st = s
        .status(ALICE, &JobReference { job_spec: String::from("hello"), job_id: id })
        .unwrap();
    assert!(matches!(st.result, JobResult::Pending));
}

#[test]
fn ctl_submit_maps_refusals_to_internal_error() {
    let mut s = store_with_alice();
    let sub = gradecope::ctl::Submission { commit: String::from("c"), spec: String::from("bogus") };
    match gradecope::submit::ctl_submit(&mut s, ALICE, &sub, 1000, 4, 120) {
        Err(gradecope::ctl::CtlError::InternalError(m)) => {
            assert_eq!(m, "Invalid job type: bogus");
        },
        other => panic!("expected InternalError, got {other:?}"),
    }
    let ok = gradecope::ctl::Submission { commit: String::from("c"), spec: String::from("hello") };
    assert!(gradecope::submit::ctl_submit(&mut s, ALICE, &ok, 1000, 4, 120).is_ok());
}

#[test]
fn success_reply_carries_hyphenated_id() {
    let r: Result<u128, SubmitError> = Ok(0xa1a2a3a4b1b2c1c2d1d2d3d4d5d6d7d8);
    let reply = submission_reply(&r);
    assert_eq!(
        reply,
        "> gradecope: Successfully started job \x1b[1;32ma1a2a3a4-b1b2-c1c2-d1d2-d3d4d5d6d7d8\x1b[0m\r\n"
    );
}

#[test]
fn terminated_subset_keeps_order_and_filters() {
    let mut s = store_with_alice();
    for k in 1..=3u128 {
        s.insert_submission(ALICE, &String::from("hello"), String::from("c"), k, 1000 + k as u64, 10, 120)
            .unwrap();
    }
    s.dequeue_one(2000).unwrap();
    job_stopped(
        &mut s,
        JobTermination {
            job_id: 1,
            log: Log { log: vec![], truncated: false },
            result: RunnerResult::Timeout,
            now: 2500,
        },
        2500,
    );
    let t = s.terminated_subset(&vec![3, 1, 2]);
    assert_eq!(t, vec![1]);
}

#[test]
fn timeout_report_shows_timeout() {
    let mut s = store_with_alice();
    let id = s
        .insert_submission(ALICE, &String::from("hello"), String::from("c"), 21, 1000, 4, 120)
        .unwrap();
    s.dequeue_one(1500).unwrap();
    job_stopped(
        &mut s,
        JobTermination {
            job_id: id,
            log: Log { log: b"partial".to_vec(), truncated: false },
            result: RunnerResult::Timeout,
            now: 130_000,
        },
        130_000,
    );
    let st = s
        .status(ALICE, &JobReference { job_spec: String::from("hello"), job_id: id })
        .unwrap();
    assert!(matches!(st.result, JobResult::Timeout));
}

#[test]
fn undelivered_report_leaves_job_running() {
    let mut s = store_with_alice();
    let id = s
        .insert_submission(ALICE, &String::from("hello"), String::from("c"), 22, 1000, 4, 120)
        .unwrap();
    s.dequeue_one(1500).unwrap();
    // The runner's link dropped before job_stopped could be delivered:
    // nothing else terminates the job, so it stays running.
    let st = s
        .status(ALICE, &JobReference { job_spec: String::from("hello"), job_id: id })
        .unwrap();
    assert!(matches!(st.result, JobResult::Running));
}

#[test]
fn users_resolve_by_name() {
    let s = store_with_alice();
    let u = s.find_user_by_name(&String::from("alice")).expect("alice was added");
    assert_eq!(u.id, ALICE);
    assert_eq!(u.name, "alice");
    assert!(s.find_user_by_name(&String::from("bob")).is_none());
}

#[test]
fn duplicate_identities_are_refused() {
    let mut s = store_with_alice();
    assert!(!s.add_user(ALICE, String::from("carol")));
    assert!(!s.add_user(2, String::from("alice")));
    assert!(!s.add_job_type(HELLO_TYPE, String::from("other")));
    assert!(!s.add_job_type(201, String::from("hello")));
    assert!(s.add_user(2, String::from("bob")));
}

#[test]
fn saved_rows_restore_exactly() {
    let mut s = store_with_alice();
    let id = s
        .insert_submission(ALICE, &String::from("hello"), String::from("c"), 30, 1000, 4, 120)
        .unwrap();
    s.dequeue_one(1500).unwrap();
    job_stopped(
        &mut s,
        JobTermination {
            job_id: id,
            log: Log { log: b"done".to_vec(), truncated: false },
            result: RunnerResult::Correct,
            now: 2000,
        },
        2000,
    );
    // Round-trip the rows through the checked constructor, as a
    // restart does.
    let users = s.users;
    let job_types = s.job_types;
    let jobs = s.jobs;
    let restored = Store::from_rows(users, job_types, jobs).expect("saved rows are well-formed");
    let st = restored
        .status(ALICE, &JobReference { job_spec: String::from("hello"), job_id: id })
        .unwrap();
    assert!(matches!(st.result, JobResult::Completed));
}

#[test]
fn inconsistent_rows_are_refused() {
    // Two users with the same id.
    let users = vec![
        gradecope::store::SqlUser { id: 1, name: String::from("a") },
        gradecope::store::SqlUser { id: 1, name: String::from("b") },
    ];
    assert!(Store::from_rows(users, vec![], vec![]).is_none());
    // A job whose owner names no user.
    let job = gradecope::store::Job {
        id: 5,
        owner: 9,
        job_type: 9,
        commit: String::from("c"),
        state: JobState::Submitted,
        submit_ts: 0,
        start_ts: None,
        stop_ts: None,
        run_log: None,
        test_result: None,
    };
    assert!(Store::from_rows(vec![], vec![], vec![job]).is_none());
    // A submitted job carrying a stop time.
    let mut s = store_with_alice();
    s.insert_submission(ALICE, &String::from("hello"), String::from("c"), 31, 0, 4, 120).unwrap();
    let mut jobs = s.jobs;
    jobs[0].stop_ts = Some(5);
    assert!(Store::from_rows(s.users, s.job_types, jobs).is_none());
}
