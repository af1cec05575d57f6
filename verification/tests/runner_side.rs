use gradecope::device::DeviceCtl;
use gradecope::dispatcher::{Dispatcher, WorkerDevice};
use gradecope::heartbeat::{
    HeartbeatState, PongEvent, TickAction, parse_pong_payload, PING_INTERVAL_MILLIS, PING_LIMIT,
};
use gradecope::proto::{JobResult, JobSpec, LOG_LIMIT, Log};
use gradecope::supervisor::{
    CLEANUP_TIMEOUT_MILLIS, CleanupEvent, CleanupPhase, RUN_TIMEOUT_MILLIS, RunEvent, RunPhase,
    finish_log, job_termination, result_of_exit_code, run_result, script_args,
};

#[test]
fn hard_timeouts_are_fixed() {
    assert_eq!(RUN_TIMEOUT_MILLIS, 120_000);
    assert_eq!(CLEANUP_TIMEOUT_MILLIS, 45_000);
    assert_eq!(gradecope::submit::SUBMISSION_READ_TIMEOUT_MILLIS, 256);
    assert_eq!(gradecope::submit::SUBMISSION_MAX_BYTES, 1024);
    assert_eq!(LOG_LIMIT, 65_536);
}

#[test]
fn exit_codes_map_as_fixed() {
    assert!(matches!(result_of_exit_code(0), JobResult::Correct));
    assert!(matches!(result_of_exit_code(1), JobResult::Incorrect));
    assert!(matches!(result_of_exit_code(2), JobResult::Error));
    assert!(matches!(result_of_exit_code(3), JobResult::Canceled));
    assert!(matches!(result_of_exit_code(4), JobResult::Timeout));
}

#[test]
fn unrecognized_exit_code_is_error() {
    assert!(matches!(result_of_exit_code(5), JobResult::Error));
    assert!(matches!(result_of_exit_code(-1), JobResult::Error));
    assert!(matches!(result_of_exit_code(255), JobResult::Error));
}

#[test]
fn run_phase_priorities() {
    assert!(matches!(run_result(RunEvent::TimedOut), JobResult::Timeout));
    assert!(matches!(run_result(RunEvent::Canceled), JobResult::Canceled));
    assert!(matches!(run_result(RunEvent::Exited(0)), JobResult::Correct));
    assert!(matches!(run_result(RunEvent::Signaled), JobResult::Error));
    assert!(matches!(run_result(RunEvent::WaitFailed), JobResult::Error));
}

#[test]
fn timeout_with_clean_cleanup_reports_timeout() {
    let t = job_termination(
        5,
        RunPhase::Ran(RunEvent::TimedOut),
        CleanupPhase::Ran(CleanupEvent::Exited(0)),
        Some(b"partial output".to_vec()),
        9000,
    );
    assert_eq!(t.job_id, 5);
    assert!(matches!(t.result, JobResult::Timeout));
    assert_eq!(t.log.log, b"partial output".to_vec());
    assert!(!t.log.truncated);
    assert_eq!(t.now, 9000);
}

#[test]
fn cleanup_failure_overrides_success_with_error() {
    let t = job_termination(
        6,
        RunPhase::Ran(RunEvent::Exited(0)),
        CleanupPhase::Ran(CleanupEvent::Exited(1)),
        Some(b"output".to_vec()),
        9000,
    );
    assert!(matches!(t.result, JobResult::Error));
    assert!(t.log.log.is_empty());
    assert!(!t.log.truncated);
}

#[test]
fn cleanup_timeout_keeps_run_result() {
    let t = job_termination(
        7,
        RunPhase::Ran(RunEvent::Exited(1)),
        CleanupPhase::Ran(CleanupEvent::TimedOut),
        Some(b"x".to_vec()),
        9000,
    );
    assert!(matches!(t.result, JobResult::Incorrect));
    assert_eq!(t.log.log, b"x".to_vec());
}

#[test]
fn spawn_failures_report_error_with_empty_log() {
    let t = job_termination(8, RunPhase::SpawnFailed, CleanupPhase::SpawnFailed, None, 1);
    assert!(matches!(t.result, JobResult::Error));
    assert!(t.log.log.is_empty());
    assert!(!t.log.truncated);
    let t2 = job_termination(
        9,
        RunPhase::Ran(RunEvent::Exited(0)),
        CleanupPhase::SpawnFailed,
        None,
        1,
    );
    assert!(matches!(t2.result, JobResult::Error));
}

#[test]
fn unreadable_log_is_empty_and_truncated() {
    let t = job_termination(
        10,
        RunPhase::Ran(RunEvent::Exited(0)),
        CleanupPhase::Ran(CleanupEvent::Exited(0)),
        None,
        1,
    );
    assert!(matches!(t.result, JobResult::Correct));
    assert!(t.log.log.is_empty());
    assert!(t.log.truncated);
}

#[test]
fn log_truncates_at_exactly_the_limit() {
    // A script that wrote 100 000 bytes: the reader takes LOG_LIMIT + 1.
    let read = vec![7u8; LOG_LIMIT + 1];
    let log = finish_log(read);
    assert_eq!(log.log.len(), 65536);
    assert!(log.truncated);

    let exact = finish_log(vec![7u8; LOG_LIMIT]);
    assert_eq!(exact.log.len(), 65536);
    assert!(!exact.truncated);

    let small = finish_log(b"ok".to_vec());
    assert_eq!(small.log, b"ok".to_vec());
    assert!(!small.truncated);
}

#[test]
fn oversize_reported_log_is_clamped() {
    let l = Log { log: vec![1u8; 70000], truncated: false };
    let c = l.clamped();
    assert_eq!(c.log.len(), LOG_LIMIT);
    assert!(c.truncated);
    let ok = Log { log: vec![1u8; 10], truncated: false };
    let k = ok.clamped();
    assert_eq!(k.log.len(), 10);
    assert!(!k.truncated);
}

#[test]
fn heartbeat_closes_after_ten_missed_pings() {
    let mut hb = HeartbeatState::new();
    // All ten pings are sent; each goes unanswered.
    for k in 1..=PING_LIMIT {
        match hb.on_tick() {
            TickAction::SendPing(idx) => assert_eq!(idx, 0),
            TickAction::Close => panic!("closed after only {} missed pings", k - 1),
        }
    }
    // With ten pings missed, the next tick closes the link.
    assert!(matches!(hb.on_tick(), TickAction::Close));
    // Ten missed pings at the 2 s cadence is the 20 s liveness window.
    assert_eq!(PING_LIMIT as u64 * PING_INTERVAL_MILLIS, 20_000);
}

#[test]
fn pong_resets_the_miss_counter() {
    let mut hb = HeartbeatState::new();
    for _ in 0..5 {
        assert!(matches!(hb.on_tick(), TickAction::SendPing(0)));
    }
    assert!(matches!(hb.on_pong(0), PongEvent::Acknowledged));
    // The window starts over: ten more pings go out before the close.
    for _ in 0..PING_LIMIT {
        assert!(matches!(hb.on_tick(), TickAction::SendPing(1)));
    }
    assert!(matches!(hb.on_tick(), TickAction::Close));
}

#[test]
fn pong_bookkeeping_distinguishes_cases() {
    let mut hb = HeartbeatState::new();
    hb.on_tick();
    assert!(matches!(hb.on_pong(0), PongEvent::Acknowledged));
    assert!(matches!(hb.on_pong(0), PongEvent::Stale));
    assert!(matches!(hb.on_pong(5), PongEvent::Ahead));
    assert!(matches!(hb.on_pong(1), PongEvent::Acknowledged));
    assert!(matches!(hb.on_pong(0), PongEvent::OutOfOrder));
}

#[test]
fn pong_payload_is_big_endian() {
    let payload = vec![0, 0, 0, 0, 0, 0, 1, 2];
    assert_eq!(parse_pong_payload(&payload), Some(258));
    let max = vec![0xff; 8];
    assert_eq!(parse_pong_payload(&max), Some(u64::MAX));
    // Extra bytes beyond the first eight are ignored.
    let long = vec![0, 0, 0, 0, 0, 0, 0, 9, 0xaa];
    assert_eq!(parse_pong_payload(&long), Some(9));
}

#[test]
fn short_pong_payload_is_malformed() {
    assert_eq!(parse_pong_payload(&vec![]), None);
    assert_eq!(parse_pong_payload(&vec![1, 2, 3, 4, 5, 6, 7]), None);
}

#[test]
fn script_argument_line_is_fixed() {
    let spec = JobSpec {
        id: 0xa1a2a3a4b1b2c1c2d1d2d3d4d5d6d7d8,
        repo_path: String::from("/home/alice/gradecope-repo"),
        commit_hash: String::from("deadbeef"),
        job_spec: String::from("hello"),
    };
    let dev = DeviceCtl { serial: String::from("/dev/ttyUSB0"), bus: 1, ports: vec![2, 3, 4] };
    let args = script_args(
        0x00112233445566778899aabbccddeeff,
        &spec,
        &String::from("/tmp/job.log"),
        &dev,
    );
    assert_eq!(args.len(), 8);
    assert_eq!(args[0], "00112233-4455-6677-8899-aabbccddeeff");
    assert_eq!(args[1], "a1a2a3a4-b1b2-c1c2-d1d2-d3d4d5d6d7d8");
    assert_eq!(args[2], "/home/alice/gradecope-repo");
    assert_eq!(args[3], "deadbeef");
    assert_eq!(args[4], "/tmp/job.log");
    assert_eq!(args[5], "/dev/ttyUSB0");
    assert_eq!(args[6], "4");
    assert_eq!(args[7], "1-2.3");

    // A single-port device has an empty dot-joined prefix.
    let single = DeviceCtl { serial: String::from("/dev/ttyA"), bus: 7, ports: vec![9] };
    let args = script_args(1, &spec, &String::from("/tmp/x"), &single);
    assert_eq!(args[6], "9");
    assert_eq!(args[7], "7-");
}

fn device(n: u8) -> DeviceCtl {
    DeviceCtl { serial: format!("/dev/tty{n}"), bus: 1, ports: vec![n] }
}

fn job(id: u128) -> JobSpec {
    JobSpec {
        id,
        repo_path: String::from("/home/alice/gradecope-repo"),
        commit_hash: String::from("deadbeef"),
        job_spec: String::from("hello"),
    }
}

#[test]
fn pool_total_is_preserved_by_assign_and_release() {
    let devices = vec![
        WorkerDevice { worker_id: 1, device: device(0) },
        WorkerDevice { worker_id: 2, device: device(1) },
    ];
    let mut d = Dispatcher::new(devices);
    assert_eq!(d.idle.len() + d.assignments.len(), 2);

    let (w1, _dev1) = d.assign(job(100)).expect("an idle device is available");
    assert_eq!(w1, 2);
    assert_eq!(d.idle.len() + d.assignments.len(), 2);

    let (_w2, _dev2) = d.assign(job(200)).expect("a second idle device is available");
    assert_eq!(d.idle.len() + d.assignments.len(), 2);
    assert!(d.idle.is_empty());
    assert!(!d.has_idle());

    // No third device: the fill phase stops.
    assert!(d.assign(job(300)).is_none());
    assert_eq!(d.idle.len() + d.assignments.len(), 2);

    // Reconciliation returns the device of the canceled job.
    assert!(d.release(100));
    assert_eq!(d.idle.len(), 1);
    assert_eq!(d.assignments.len(), 1);
    assert_eq!(d.idle[0].worker_id, 2);
    assert!(!d.release(100));
    assert!(d.release(200));
    assert_eq!(d.idle.len(), 2);
    assert!(d.assignments.is_empty());
}
