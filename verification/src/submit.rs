//! The submission path: what the per-user socket decides once a
//! submission has been read and decoded, and the exact one-line replies
//! it writes back.

use vstd::prelude::*;
use vstd::string::StringExecFns;

use crate::store::{SqlUser, Store, SubmitError, insert_post, states_monotone};
use crate::text::{dec_seq, dec_u64, uuid_hyphenated, uuid_string};

verus! {

/// Longest accepted submission, in bytes; longer reads are dropped
/// without a reply.
pub const SUBMISSION_MAX_BYTES: usize = 1024;

/// Deadline for reading one submission, in milliseconds.
pub const SUBMISSION_READ_TIMEOUT_MILLIS: u64 = 256;

/// One decoded submission from a per-user socket.
#[derive(Debug)]
pub struct Submission {
    pub user: String,
    pub commit: String,
    pub spec: String,
}

/// Whether a submission read overran the accepted length.
pub fn submission_too_long(read_len: usize) -> (r: bool)
    ensures
        r == (read_len > SUBMISSION_MAX_BYTES),
{
    read_len > SUBMISSION_MAX_BYTES
}

/// The reason line of a refused submission.
pub open spec fn submit_error_msg(e: SubmitError) -> Seq<char> {
    match e {
        SubmitError::Quota { active, max } => "Too many active jobs: "@ + dec_seq(active as nat)
            + " (user quota is "@ + dec_seq(max as nat) + ")"@,
        SubmitError::TimeQuota { count, max } => "Too many recent jobs: submitted "@ + dec_seq(
            count as nat,
        ) + " in the last hour (user quota is "@ + dec_seq(max as nat),
        SubmitError::Internal => "Internal error"@,
        SubmitError::InvalidSpec { spec } => "Invalid job type: "@ + spec@,
    }
}

/// Renders the reason line of a refused submission.
pub fn render_submit_error(e: &SubmitError) -> (r: String)
    ensures
        r@ == submit_error_msg(*e),
{
    match e {
        SubmitError::Quota { active, max } => {
            let mut s = String::from_str("Too many active jobs: ");
            let a = dec_u64(*active as u64);
            s.append(a.as_str());
            s.append(" (user quota is ");
            let m = dec_u64(*max as u64);
            s.append(m.as_str());
            s.append(")");
            proof {
                assert(s@ =~= submit_error_msg(*e));
            }
            s
        },
        SubmitError::TimeQuota { count, max } => {
            let mut s = String::from_str("Too many recent jobs: submitted ");
            let c = dec_u64(*count as u64);
            s.append(c.as_str());
            s.append(" in the last hour (user quota is ");
            let m = dec_u64(*max as u64);
            s.append(m.as_str());
            proof {
                assert(s@ =~= submit_error_msg(*e));
            }
            s
        },
        SubmitError::Internal => String::from_str("Internal error"),
        SubmitError::InvalidSpec { spec } => {
            let mut s = String::from_str("Invalid job type: ");
            s.append(spec.as_str());
            proof {
                assert(s@ =~= submit_error_msg(*e));
            }
            s
        },
    }
}

/// The acknowledgement line of an accepted submission, with the new
/// job id in bold green.
pub open spec fn success_reply(job_id: u128) -> Seq<char> {
    "> gradecope: Successfully started job \x1b[1;32m"@ + uuid_hyphenated(job_id) + "\x1b[0m\r\n"@
}

/// The two reply lines of a refused submission, with the failure
/// notice in bold red and the reason spelled out.
pub open spec fn failure_reply(e: SubmitError) -> Seq<char> {
    "> gradecope: \x1b[1;31mFailed to submit job\x1b[0m.\r\n> gradecope: Reason: "@
        + submit_error_msg(e) + "\r\n"@
}

/// Renders the full reply a submission connection receives.
pub fn submission_reply(r: &Result<u128, SubmitError>) -> (s: String)
    ensures
        s@ == match r {
            Result::Ok(id) => success_reply(*id),
            Result::Err(e) => failure_reply(*e),
        },
{
    match r {
        Ok(id) => {
            let mut s = String::from_str("> gradecope: Successfully started job \x1b[1;32m");
            let u = uuid_string(*id);
            s.append(u.as_str());
            s.append("\x1b[0m\r\n");
            proof {
                assert(s@ =~= success_reply(*id));
            }
            s
        },
        Err(e) => {
            let mut s = String::from_str(
                "> gradecope: \x1b[1;31mFailed to submit job\x1b[0m.\r\n> gradecope: Reason: ",
            );
            let m = render_submit_error(e);
            s.append(m.as_str());
            s.append("\r\n");
            proof {
                assert(s@ =~= failure_reply(*e));
            }
            s
        },
    }
}

/// Decides one decoded submission against the socket's user: a name
/// mismatch is refused as internal without touching the store; a match
/// goes through spec resolution, the two quotas, and the insert, with
/// the given fresh id.
pub fn process_submission(
    store: &mut Store,
    user: &SqlUser,
    submission: &Submission,
    new_id: u128,
    now: u64,
    max_active: u32,
    max_hour: u32,
) -> (r: Result<u128, SubmitError>)
    requires
        old(store).wf(),
        old(store).has_user(user.id),
    ensures
        final(store).wf(),
        states_monotone(old(store).jobs@, final(store).jobs@),
        submission.user@ != user.name@ ==> (r matches Err(SubmitError::Internal)
            && final(store).jobs@ == old(store).jobs@
            && final(store).users@ == old(store).users@
            && final(store).job_types@ == old(store).job_types@),
        submission.user@ == user.name@ ==> insert_post(
            *old(store),
            *final(store),
            user.id,
            submission.spec@,
            submission.commit,
            new_id,
            now,
            max_active,
            max_hour,
            r,
        ),
{
    if !(submission.user == user.name) {
        return Err(SubmitError::Internal);
    }
    store.insert_submission(
        user.id,
        &submission.spec,
        submission.commit.clone(),
        new_id,
        now,
        max_active,
        max_hour,
    )
}

/// Decides one decoded submission with a freshly drawn random job id.
/// Whatever id the draw came back with, the outcome is exactly the
/// submission pipeline's outcome for that id.
pub fn submit(
    store: &mut Store,
    user: &SqlUser,
    submission: &Submission,
    now: u64,
    max_active: u32,
    max_hour: u32,
) -> (r: Result<u128, SubmitError>)
    requires
        old(store).wf(),
        old(store).has_user(user.id),
    ensures
        final(store).wf(),
        states_monotone(old(store).jobs@, final(store).jobs@),
        submission.user@ != user.name@ ==> (r matches Err(SubmitError::Internal)
            && final(store).jobs@ == old(store).jobs@),
        submission.user@ == user.name@ ==> exists|nid: u128|
            insert_post(
                *old(store),
                *final(store),
                user.id,
                submission.spec@,
                submission.commit,
                nid,
                now,
                max_active,
                max_hour,
                r,
            ),
{
    let new_id = crate::coordinator::fresh_job_id();
    process_submission(store, user, submission, new_id, now, max_active, max_hour)
}

/// Accepts a submission arriving on the authenticated control channel:
/// the peer is already resolved to a user, so no name check applies. A
/// refusal surfaces as an internal error carrying the reason line.
pub fn ctl_submit(
    store: &mut Store,
    user_id: u128,
    submission: &crate::ctl::Submission,
    now: u64,
    max_active: u32,
    max_hour: u32,
) -> (r: Result<u128, crate::ctl::CtlError>)
    requires
        old(store).wf(),
        old(store).has_user(user_id),
    ensures
        final(store).wf(),
        states_monotone(old(store).jobs@, final(store).jobs@),
        r matches Ok(id) ==> insert_post(
            *old(store),
            *final(store),
            user_id,
            submission.spec@,
            submission.commit,
            id,
            now,
            max_active,
            max_hour,
            Ok(id),
        ),
        r matches Err(ce) ==> (ce matches crate::ctl::CtlError::InternalError(m) && exists|
            nid: u128,
            e: SubmitError,
        |
            #![auto]
            insert_post(
                *old(store),
                *final(store),
                user_id,
                submission.spec@,
                submission.commit,
                nid,
                now,
                max_active,
                max_hour,
                Err(e),
            ) && m@ == submit_error_msg(e)),
{
    let new_id = crate::coordinator::fresh_job_id();
    match store.insert_submission(
        user_id,
        &submission.spec,
        submission.commit.clone(),
        new_id,
        now,
        max_active,
        max_hour,
    ) {
        Ok(id) => Ok(id),
        Err(e) => {
            let m = render_submit_error(&e);
            Err(crate::ctl::CtlError::InternalError(m))
        },
    }
}

} // verus!
