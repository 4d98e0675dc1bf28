//! The checks a worker's result report goes through before its result is
//! accepted, each as a function from what the server knows to the reply
//! that ends the report (or `None` to go on): the epoch, the shape of the
//! report, an earlier answer under the same idempotency key, the ownership
//! of the dispatch lease, and what to answer when no attempt is waiting.
use crate::persistence::{DispatchRecord, IdempotencyDecision, TerminalOutcome};
use crate::state::{IdempotencyRecord, TimedOutcome};
use crate::text::str_eq;
use vstd::prelude::*;

verus! {

broadcast use vstd::string::group_string_axioms;

/// The answer to a result report.
#[derive(Debug)]
pub struct ReportReply {
    pub ack: bool,
    pub duplicate: bool,
    pub code: String,
    pub message: String,
}

/// Does the reply carry these values?
pub open spec fn reply_is(r: ReportReply, ack: bool, duplicate: bool, code: Seq<char>, message: Seq<char>) -> bool {
    r.ack == ack && r.duplicate == duplicate && r.code@ == code && r.message@ == message
}

/// Is the reply present and carrying these values?
pub open spec fn replies(r: Option<ReportReply>, ack: bool, duplicate: bool, code: Seq<char>, message: Seq<char>) -> bool {
    r matches Some(x) && reply_is(x, ack, duplicate, code, message)
}

fn reply(ack: bool, duplicate: bool, code: &str, message: &str) -> (r: ReportReply)
    ensures
        reply_is(r, ack, duplicate, code@, message@),
{
    ReportReply { ack, duplicate, code: code.to_string(), message: message.to_string() }
}

/// Content equality of two byte strings.
pub fn bytes_eq(a: &Vec<u8>, b: &Vec<u8>) -> (r: bool)
    ensures
        r == (a@ == b@),
{
    if a.len() != b.len() {
        return false;
    }
    let mut i: usize = 0;
    while i < a.len()
        invariant
            a@.len() == b@.len(),
            i <= a@.len(),
            forall|j: int| 0 <= j < i ==> a@[j] == b@[j],
        decreases a@.len() - i,
    {
        if a[i] != b[i] {
            return false;
        }
        i = i + 1;
    }
    proof {
        assert(a@ =~= b@);
    }
    true
}

/// A report from another server epoch needs its dispatch found in the store.
pub fn needs_dispatch_recovery(report_epoch: u64, current_epoch: u64) -> (b: bool)
    ensures
        b == (report_epoch != 0 && report_epoch != current_epoch),
{
    report_epoch != 0 && report_epoch != current_epoch
}

/// Does a stored dispatch belong to the reporting worker, token and epoch?
pub fn recovered_dispatch_matches(d: &DispatchRecord, worker_id: &str, dispatch_token: &Vec<u8>, server_epoch: u64) -> (b: bool)
    ensures
        b == (d.worker_id@ == worker_id@ && d.dispatch_token@ == dispatch_token@ && d.server_epoch == server_epoch),
{
    str_eq(d.worker_id.as_str(), worker_id) && bytes_eq(&d.dispatch_token, dispatch_token) && d.server_epoch
        == server_epoch
}

/// The reply to a report from another epoch whose dispatch was not found.
pub fn stale_epoch_reply() -> (r: ReportReply)
    ensures
        reply_is(r, false, false, "STALE_EPOCH"@, "server epoch mismatch"@),
{
    reply(false, false, "STALE_EPOCH", "server epoch mismatch")
}

/// The checks on the report itself, in order: an idempotency key is
/// needed; without a durable store an answer remembered under the key is
/// given again; a result is needed; a dispatch lease and token are needed.
pub fn check_report_shape(
    idempotency_key: &str,
    durable_store: bool,
    remembered: Option<&IdempotencyRecord>,
    has_result: bool,
    dispatch_lease_id: &str,
    dispatch_token: &Vec<u8>,
) -> (r: Option<ReportReply>)
    ensures
        idempotency_key@.len() == 0 ==> replies(r, false, false, "INVALID_REQUEST"@, "empty idempotency_key"@),
        idempotency_key@.len() > 0 && !durable_store && remembered is Some ==> replies(r,
            remembered.unwrap().ack,
            true,
            if remembered.unwrap().ack { "DUPLICATE_ACCEPTED"@ } else { "DUPLICATE_REJECTED"@ },
            remembered.unwrap().message@,
        ),
        idempotency_key@.len() > 0 && !(!durable_store && remembered is Some) && !has_result ==> replies(r, false, false, "INVALID_REQUEST"@, "missing result"@),
        idempotency_key@.len() > 0 && !(!durable_store && remembered is Some) && has_result && (dispatch_lease_id@.len()
            == 0 || dispatch_token@.len() == 0) ==> replies(r,
            false,
            false,
            "INVALID_REQUEST"@,
            "missing dispatch lease or token"@,
        ),
        idempotency_key@.len() > 0 && !(!durable_store && remembered is Some) && has_result && dispatch_lease_id@.len()
            > 0 && dispatch_token@.len() > 0 ==> r is None,
{
    if idempotency_key.unicode_len() == 0 {
        return Some(reply(false, false, "INVALID_REQUEST", "empty idempotency_key"));
    }
    if !durable_store {
        if let Some(record) = remembered {
            let code = if record.ack { "DUPLICATE_ACCEPTED" } else { "DUPLICATE_REJECTED" };
            return Some(reply(record.ack, true, code, record.message.as_str()));
        }
    }
    if !has_result {
        return Some(reply(false, false, "INVALID_REQUEST", "missing result"));
    }
    if dispatch_lease_id.unicode_len() == 0 || dispatch_token.len() == 0 {
        return Some(reply(false, false, "INVALID_REQUEST", "missing dispatch lease or token"));
    }
    None
}

/// A recovered dispatch must be the one of the reported episode attempt.
pub fn check_recovered_identity(recovered: Option<&DispatchRecord>, episode_id: &str, attempt_id: u32) -> (r: Option<ReportReply>)
    ensures
        match recovered {
            Some(d) => if d.episode_id@ != episode_id@ || d.attempt_id != attempt_id {
                replies(r,
                    false,
                    false,
                    "DISPATCH_MISMATCH"@,
                    "recovered dispatch does not match result identity"@,
                )
            } else {
                r is None
            },
            None => r is None,
        },
{
    match recovered {
        Some(d) => {
            if !str_eq(d.episode_id.as_str(), episode_id) || d.attempt_id != attempt_id {
                Some(reply(false, false, "DISPATCH_MISMATCH", "recovered dispatch does not match result identity"))
            } else {
                None
            }
        },
        None => None,
    }
}

/// The answer the store's idempotency decision gives: a replay answers as
/// before, as a duplicate; a conflict is refused; a new key goes on.
pub fn idempotency_reply(decision: &IdempotencyDecision) -> (r: Option<ReportReply>)
    ensures
        match *decision {
            IdempotencyDecision::Missing => r is None,
            IdempotencyDecision::Replay(rec) => replies(r,
                rec.ack,
                true,
                "DUPLICATE_ACCEPTED"@,
                rec.message@,
            ),
            IdempotencyDecision::Conflict(_) => replies(r,
                false,
                true,
                "IDEMPOTENCY_CONFLICT"@,
                "idempotency key reused with different report"@,
            ),
        },
{
    match decision {
        IdempotencyDecision::Missing => None,
        IdempotencyDecision::Replay(rec) => Some(reply(rec.ack, true, "DUPLICATE_ACCEPTED", rec.message.as_str())),
        IdempotencyDecision::Conflict(_) => Some(
            reply(false, true, "IDEMPOTENCY_CONFLICT", "idempotency key reused with different report"),
        ),
    }
}

/// Only the worker that holds the lease, with the lease's token, may report
/// for a waiting attempt.
pub fn check_lease_owner(pending_worker_id: &str, pending_token: &Vec<u8>, worker_id: &str, dispatch_token: &Vec<u8>) -> (r: Option<ReportReply>)
    ensures
        pending_worker_id@ != worker_id@ ==> replies(r,
            false,
            false,
            "WORKER_MISMATCH"@,
            "worker_id does not own this dispatch lease"@,
        ),
        pending_worker_id@ == worker_id@ && pending_token@ != dispatch_token@ ==> replies(r,
            false,
            false,
            "TOKEN_MISMATCH"@,
            "dispatch token mismatch"@,
        ),
        pending_worker_id@ == worker_id@ && pending_token@ == dispatch_token@ ==> r is None,
{
    if !str_eq(pending_worker_id, worker_id) {
        return Some(reply(false, false, "WORKER_MISMATCH", "worker_id does not own this dispatch lease"));
    }
    if !bytes_eq(pending_token, dispatch_token) {
        return Some(reply(false, false, "TOKEN_MISMATCH", "dispatch token mismatch"));
    }
    None
}

/// The answer to a report for which no attempt is waiting: the stored
/// terminal outcome (an accepted one as `ALREADY_COMPLETED`), as a
/// duplicate; else the remembered outcome of the lease; else a late report
/// after a cancel; else an unknown lease.
pub fn absent_pending_reply(terminal: Option<&TerminalOutcome>, remembered: Option<&TimedOutcome>, cancelled: bool) -> (r: ReportReply)
    ensures
        match terminal {
            Some(t) => reply_is(
                r,
                false,
                true,
                if t.code@ == "ACCEPTED"@ { "ALREADY_COMPLETED"@ } else { t.code@ },
                t.message@,
            ),
            None => match remembered {
                Some(o) => if o.code@ == "ACCEPTED"@ {
                    reply_is(r, false, false, "ALREADY_COMPLETED"@, "result already accepted for this lease"@)
                } else {
                    reply_is(r, false, false, o.code@, o.message@)
                },
                None => if cancelled {
                    reply_is(r, false, false, "LATE_AFTER_CANCEL"@, "episode was cancelled"@)
                } else {
                    reply_is(r, false, false, "UNKNOWN_PENDING"@, "pending result not found"@)
                },
            },
        },
{
    match terminal {
        Some(t) => {
            let code = if str_eq(t.code.as_str(), "ACCEPTED") { "ALREADY_COMPLETED" } else { t.code.as_str() };
            reply(false, true, code, t.message.as_str())
        },
        None => match remembered {
            Some(o) => {
                if str_eq(o.code.as_str(), "ACCEPTED") {
                    reply(false, false, "ALREADY_COMPLETED", "result already accepted for this lease")
                } else {
                    reply(false, false, o.code.as_str(), o.message.as_str())
                }
            },
            None => {
                if cancelled {
                    reply(false, false, "LATE_AFTER_CANCEL", "episode was cancelled")
                } else {
                    reply(false, false, "UNKNOWN_PENDING", "pending result not found")
                }
            },
        },
    }
}

/// The reply when the store could not commit the result.
pub fn commit_failed_reply() -> (r: ReportReply)
    ensures
        reply_is(r, false, false, "PERSISTENCE_FAILED"@, "result was not committed; retry with the same idempotency key"@),
{
    reply(false, false, "PERSISTENCE_FAILED", "result was not committed; retry with the same idempotency key")
}

/// The reply to an accepted result.
pub fn accepted_reply() -> (r: ReportReply)
    ensures
        reply_is(r, true, false, "ACCEPTED"@, "accepted"@),
{
    reply(true, false, "ACCEPTED", "accepted")
}

/// How long an answer is remembered under its idempotency key, in seconds:
/// the configured time, at least one second.
pub fn remembered_answer_ttl_secs(configured: u64) -> (t: u64)
    ensures
        t == (if configured > 1 { configured } else { 1 }),
{
    if configured > 1 {
        configured
    } else {
        1
    }
}

} // verus!
