//! Terminal rendering of job results, statuses and history tables,
//! with the SGR escape codes written out.

use vstd::prelude::*;
use vstd::string::StrSliceExecFns;
use vstd::string::StringExecFns;

use crate::ctl::{JobResult, JobStatus};

verus! {

/// A piece of text wrapped in one SGR style code.
pub open spec fn styled(code: Seq<char>, s: Seq<char>) -> Seq<char> {
    "\x1b["@ + code + "m"@ + s + "\x1b[0m"@
}

/// The styled one-word rendering of each job result, as the CLI shows
/// it: pending yellow, running cyan, completed green, incorrect red,
/// error bold red, canceled dim, timeout red.
pub open spec fn format_result_spec(r: JobResult) -> Seq<char> {
    match r {
        JobResult::Pending => "\x1b[33m\u{23f3} Pending\x1b[0m"@,
        JobResult::Running => "\x1b[36m\u{2699}\u{fe0f}  Running\x1b[0m"@,
        JobResult::Completed => "\x1b[32m\u{2713} Completed\x1b[0m"@,
        JobResult::Incorrect => "\x1b[31m\u{2717} Incorrect\x1b[0m"@,
        JobResult::Error => "\x1b[1;31m\u{26a0} Error\x1b[0m"@,
        JobResult::Canceled => "\x1b[2m\u{2298} Canceled\x1b[0m"@,
        JobResult::Timeout => "\x1b[31m\u{23f1} Timeout\x1b[0m"@,
    }
}

/// Renders one job result for the terminal.
pub fn format_result(result: &JobResult) -> (r: String)
    ensures
        r@ == format_result_spec(*result),
{
    match result {
        JobResult::Pending => String::from_str("\x1b[33m\u{23f3} Pending\x1b[0m"),
        JobResult::Running => String::from_str("\x1b[36m\u{2699}\u{fe0f}  Running\x1b[0m"),
        JobResult::Completed => String::from_str("\x1b[32m\u{2713} Completed\x1b[0m"),
        JobResult::Incorrect => String::from_str("\x1b[31m\u{2717} Incorrect\x1b[0m"),
        JobResult::Error => String::from_str("\x1b[1;31m\u{26a0} Error\x1b[0m"),
        JobResult::Canceled => String::from_str("\x1b[2m\u{2298} Canceled\x1b[0m"),
        JobResult::Timeout => String::from_str("\x1b[31m\u{23f1} Timeout\x1b[0m"),
    }
}

/// The control channel's greeting for a resolved user.
pub open spec fn greeting_spec(name: Seq<char>) -> Seq<char> {
    "Hello, "@ + name + "!"@
}

/// Renders the control channel's greeting.
pub fn greeting(name: &String) -> (r: String)
    ensures
        r@ == greeting_spec(name@),
{
    let mut s = String::from_str("Hello, ");
    s.append(name.as_str());
    s.append("!");
    proof {
        assert(s@ =~= greeting_spec(name@));
    }
    s
}

/// The control channel's `hi` reply: the greeting for the resolved
/// user, or the placeholder name when the peer resolved to no user.
pub fn hi_reply(user: Option<&crate::store::SqlUser>) -> (r: String)
    ensures
        r@ == match user {
            Option::Some(u) => greeting_spec(u.name@),
            Option::None => greeting_spec("no name"@),
        },
{
    match user {
        Some(u) => greeting(&u.name),
        None => {
            let mut s = String::from_str("Hello, ");
            s.append("no name");
            s.append("!");
            proof {
                assert(s@ =~= greeting_spec("no name"@));
            }
            s
        },
    }
}

/// `n` spaces.
pub open spec fn spaces(n: int) -> Seq<char>
    decreases n,
{
    if n <= 0 {
        Seq::empty()
    } else {
        spaces(n - 1).push(' ')
    }
}

/// Text padded with spaces on the right to width `w`; text already
/// that wide is unchanged.
pub open spec fn pad_to(s: Seq<char>, w: int) -> Seq<char> {
    if s.len() >= w {
        s
    } else {
        s + spaces(w - s.len())
    }
}

/// Appends spaces until the given count is reached.
fn append_spaces(out: &mut String, n: usize)
    ensures
        final(out)@ == old(out)@ + spaces(n as int),
    decreases n,
{
    let mut k: usize = 0;
    while k < n
        invariant
            k <= n,
            out@ == old(out)@ + spaces(k as int),
        decreases n - k,
    {
        out.append(" ");
        proof {
            reveal_strlit(" ");
            assert(" "@ =~= seq![' ']);
            assert(old(out)@ + spaces(k as int + 1) =~= (old(out)@ + spaces(k as int)).push(' '));
        }
        k += 1;
    }
    proof {
        assert(out@ =~= old(out)@ + spaces(n as int));
    }
}

/// Appends text padded to width `w`.
fn append_padded(out: &mut String, s: &String, w: usize)
    ensures
        final(out)@ == old(out)@ + pad_to(s@, w as int),
{
    out.append(s.as_str());
    let len = s.as_str().unicode_len();
    if len < w {
        append_spaces(out, w - len);
        proof {
            assert(out@ =~= old(out)@ + pad_to(s@, w as int));
        }
    }
}

/// The widest spec name among the rows, over the first `k` rows.
pub open spec fn max_spec_width(jobs: Seq<JobStatus>, k: int) -> int
    decreases k,
{
    if k <= 0 {
        0
    } else {
        let prev = max_spec_width(jobs, k - 1);
        if jobs[k - 1].job_spec@.len() > prev {
            jobs[k - 1].job_spec@.len() as int
        } else {
            prev
        }
    }
}

/// The header line of the history table.
pub open spec fn table_header(w: int) -> Seq<char> {
    pad_to(styled("1;4"@, "JOB"@), w) + "  "@ + pad_to(styled("1;4"@, "ID"@), 10) + "  "@ + styled(
        "1;4"@,
        "STATUS"@,
    ) + "\n"@
}

/// One row of the history table: the spec name bold and padded, the
/// first eight characters of the job id dimmed, and the styled result.
pub open spec fn table_row(j: JobStatus, w: int) -> Seq<char> {
    pad_to(styled("1"@, j.job_spec@), w) + "  "@ + styled(
        "2"@,
        crate::text::id_hex(j.job_id).take(8),
    ) + "  "@ + format_result_spec(j.result) + "\n"@
}

/// The first `k` rows of the history table.
pub open spec fn table_rows(jobs: Seq<JobStatus>, w: int, k: int) -> Seq<char>
    decreases k,
{
    if k <= 0 {
        Seq::empty()
    } else {
        table_rows(jobs, w, k - 1) + table_row(jobs[k - 1], w)
    }
}

/// The whole history table: a dimmed notice when there is nothing to
/// show, else a header and one line per row, spec names padded to the
/// widest.
pub open spec fn job_table_spec(jobs: Seq<JobStatus>) -> Seq<char> {
    if jobs.len() == 0 {
        styled("2"@, "No jobs found."@) + "\n"@
    } else {
        let w = max_spec_width(jobs, jobs.len() as int);
        table_header(w) + table_rows(jobs, w, jobs.len() as int)
    }
}

/// Wraps text in one SGR style code.
fn style(code: &str, s: &str) -> (r: String)
    ensures
        r@ == styled(code@, s@),
{
    let mut out = String::from_str("\x1b[");
    out.append(code);
    out.append("m");
    out.append(s);
    out.append("\x1b[0m");
    proof {
        assert(out@ =~= styled(code@, s@));
    }
    out
}

/// Renders the history table for the terminal.
pub fn format_job_table(jobs: &Vec<JobStatus>) -> (r: String)
    ensures
        r@ == job_table_spec(jobs@),
{
    if jobs.len() == 0 {
        let mut out = style("2", "No jobs found.");
        out.append("\n");
        proof {
            assert(out@ =~= job_table_spec(jobs@));
        }
        return out;
    }
    let mut w: usize = 0;
    let mut k: usize = 0;
    while k < jobs.len()
        invariant
            k <= jobs@.len(),
            w == max_spec_width(jobs@, k as int),
        decreases jobs@.len() - k,
    {
        let len = jobs[k].job_spec.as_str().unicode_len();
        if len > w {
            w = len;
        }
        k += 1;
    }
    let mut out = String::new();
    let header_job = style("1;4", "JOB");
    append_padded(&mut out, &header_job, w);
    out.append("  ");
    let header_id = style("1;4", "ID");
    append_padded(&mut out, &header_id, 10);
    out.append("  ");
    let header_status = style("1;4", "STATUS");
    out.append(header_status.as_str());
    out.append("\n");
    proof {
        assert(out@ =~= table_header(w as int));
    }
    let mut i: usize = 0;
    while i < jobs.len()
        invariant
            i <= jobs@.len(),
            w == max_spec_width(jobs@, jobs@.len() as int),
            out@ == table_header(w as int) + table_rows(jobs@, w as int, i as int),
        decreases jobs@.len() - i,
    {
        let ghost pre = out@;
        let spec_styled = style("1", jobs[i].job_spec.as_str());
        append_padded(&mut out, &spec_styled, w);
        out.append("  ");
        let id_str = crate::text::uuid_string(jobs[i].job_id);
        let id_prefix = id_str.as_str().substring_char(0, 8);
        proof {
            assert(crate::text::uuid_hyphenated(jobs[i as int].job_id).subrange(0, 8)
                =~= crate::text::id_hex(jobs[i as int].job_id).take(8));
        }
        let id_styled = style("2", id_prefix);
        out.append(id_styled.as_str());
        out.append("  ");
        let res = format_result(&jobs[i].result);
        out.append(res.as_str());
        out.append("\n");
        proof {
            assert(out@ =~= pre + table_row(jobs@[i as int], w as int));
            assert(out@ =~= table_header(w as int) + table_rows(jobs@, w as int, i as int + 1));
        }
        i += 1;
    }
    out
}

/// The single-job status card: the spec, the id, the styled result,
/// and, when one is given, the tail of the log, dimmed.
pub open spec fn job_status_card_spec(st: JobStatus, log_preview: Option<Seq<char>>) -> Seq<char> {
    let head = styled("1"@, "Spec:"@) + "    "@ + st.job_spec@ + "\n"@ + styled("1"@, "ID:"@)
        + "      "@ + crate::text::uuid_hyphenated(st.job_id) + "\n"@ + styled("1"@, "Status:"@)
        + "  "@ + format_result_spec(st.result) + "\n"@;
    match log_preview {
        Option::None => head,
        Option::Some(log) => head + "\n"@ + styled("1;4"@, "Last 10 lines of log:"@) + "\n"@
            + styled("2"@, log) + "\n"@,
    }
}

/// Renders the single-job status card.
pub fn format_job_status(st: &JobStatus, log_preview: Option<&String>) -> (r: String)
    ensures
        r@ == job_status_card_spec(
            *st,
            match log_preview {
                Option::None => None,
                Option::Some(l) => Some(l@),
            },
        ),
{
    let mut out = style("1", "Spec:");
    out.append("    ");
    out.append(st.job_spec.as_str());
    out.append("\n");
    let bold_id = style("1", "ID:");
    out.append(bold_id.as_str());
    out.append("      ");
    let id = crate::text::uuid_string(st.job_id);
    out.append(id.as_str());
    out.append("\n");
    let bold_status = style("1", "Status:");
    out.append(bold_status.as_str());
    out.append("  ");
    let res = format_result(&st.result);
    out.append(res.as_str());
    out.append("\n");
    match log_preview {
        None => {
            proof {
                assert(out@ =~= job_status_card_spec(*st, None));
            }
            out
        },
        Some(log) => {
            out.append("\n");
            let title = style("1;4", "Last 10 lines of log:");
            out.append(title.as_str());
            out.append("\n");
            let dimmed = style("2", log.as_str());
            out.append(dimmed.as_str());
            out.append("\n");
            proof {
                assert(out@ =~= job_status_card_spec(*st, Some(log@)));
            }
            out
        },
    }
}

} // verus!
