use gradecope::ctl::{JobResult, JobStatus};
use gradecope::lines::last_n_lines;
use gradecope::render::{format_job_status, format_job_table, format_result, greeting, hi_reply};
use gradecope::store::SqlUser;
use gradecope::text::dec_u64;

#[test]
fn results_render_with_their_styles() {
    assert_eq!(format_result(&JobResult::Pending), "\x1b[33m\u{23f3} Pending\x1b[0m");
    assert_eq!(format_result(&JobResult::Running), "\x1b[36m\u{2699}\u{fe0f}  Running\x1b[0m");
    assert_eq!(format_result(&JobResult::Completed), "\x1b[32m\u{2713} Completed\x1b[0m");
    assert_eq!(format_result(&JobResult::Incorrect), "\x1b[31m\u{2717} Incorrect\x1b[0m");
    assert_eq!(format_result(&JobResult::Error), "\x1b[1;31m\u{26a0} Error\x1b[0m");
    assert_eq!(format_result(&JobResult::Canceled), "\x1b[2m\u{2298} Canceled\x1b[0m");
    assert_eq!(format_result(&JobResult::Timeout), "\x1b[31m\u{23f1} Timeout\x1b[0m");
}

#[test]
fn greeting_names_the_user() {
    assert_eq!(greeting(&String::from("alice")), "Hello, alice!");
    let u = SqlUser { id: 1, name: String::from("bob") };
    assert_eq!(hi_reply(Some(&u)), "Hello, bob!");
    assert_eq!(hi_reply(None), "Hello, no name!");
}

#[test]
fn decimal_rendering_is_exact() {
    assert_eq!(dec_u64(0), "0");
    assert_eq!(dec_u64(7), "7");
    assert_eq!(dec_u64(120), "120");
    assert_eq!(dec_u64(u64::MAX), "18446744073709551615");
}

#[test]
fn last_n_lines_takes_the_tail() {
    assert_eq!(last_n_lines("a\nb\nc\nd", 2), "c\nd");
    assert_eq!(last_n_lines("a\nb", 10), "a\nb");
    assert_eq!(last_n_lines("a\nb\nc", 0), "");
    assert_eq!(last_n_lines("", 3), "");
}

#[test]
fn last_n_lines_handles_line_endings() {
    // A trailing newline closes the last line without opening a new one.
    assert_eq!(last_n_lines("a\nb\n", 2), "a\nb");
    // Carriage returns before line feeds are dropped.
    assert_eq!(last_n_lines("a\r\nb\r\nc", 2), "b\nc");
    // A lone carriage return neither splits nor disappears.
    assert_eq!(last_n_lines("a\rb\nc", 2), "a\rb\nc");
    assert_eq!(last_n_lines("tail\r", 1), "tail\r");
    // Empty lines count as lines.
    assert_eq!(last_n_lines("a\n\nb", 2), "\nb");
}

#[test]
fn empty_table_says_so() {
    let t = format_job_table(&vec![]);
    assert_eq!(t, "\x1b[2mNo jobs found.\x1b[0m\n");
}

#[test]
fn table_pads_specs_and_shortens_ids() {
    let jobs = vec![
        JobStatus {
            job_spec: String::from("hello"),
            job_id: 0xa1a2a3a4b1b2c1c2d1d2d3d4d5d6d7d8,
            result: JobResult::Completed,
        },
        JobStatus {
            job_spec: String::from("x"),
            job_id: 0x00112233445566778899aabbccddeeff,
            result: JobResult::Pending,
        },
    ];
    let t = format_job_table(&jobs);
    let lines: Vec<&str> = t.lines().collect();
    assert_eq!(lines.len(), 3);
    assert_eq!(lines[0], "\x1b[1;4mJOB\x1b[0m  \x1b[1;4mID\x1b[0m  \x1b[1;4mSTATUS\x1b[0m");
    assert_eq!(
        lines[1],
        "\x1b[1mhello\x1b[0m  \x1b[2ma1a2a3a4\x1b[0m  \x1b[32m\u{2713} Completed\x1b[0m"
    );
    // Width counts the style codes too, so a styled spec wider than the
    // column gets no extra padding.
    assert_eq!(
        lines[2],
        "\x1b[1mx\x1b[0m  \x1b[2m00112233\x1b[0m  \x1b[33m\u{23f3} Pending\x1b[0m"
    );
}

#[test]
fn status_card_lists_the_fields() {
    let st = JobStatus {
        job_spec: String::from("hello"),
        job_id: 0xa1a2a3a4b1b2c1c2d1d2d3d4d5d6d7d8,
        result: JobResult::Running,
    };
    let card = format_job_status(&st, None);
    let expected = "\x1b[1mSpec:\x1b[0m    hello\n\x1b[1mID:\x1b[0m      a1a2a3a4-b1b2-c1c2-d1d2-d3d4d5d6d7d8\n\x1b[1mStatus:\x1b[0m  \x1b[36m\u{2699}\u{fe0f}  Running\x1b[0m\n";
    assert_eq!(card, expected);
    let tail = String::from("line9\nline10");
    let with_log = format_job_status(&st, Some(&tail));
    assert!(with_log.starts_with(expected));
    assert!(with_log.ends_with(
        "\n\x1b[1;4mLast 10 lines of log:\x1b[0m\n\x1b[2mline9\nline10\x1b[0m\n"
    ));
}

#[test]
fn user_identity_renders_name_and_id() {
    let u = SqlUser { id: 0xa1a2a3a4b1b2c1c2d1d2d3d4d5d6d7d8, name: String::from("alice") };
    assert_eq!(u.display(), "alice#a1a2a3a4-b1b2-c1c2-d1d2-d3d4d5d6d7d8");
}
