//! Decisions of the restart recovery: which persisted episodes and agent
//! jobs can be taken up again, and how a dispatched episode resumes.
use crate::config::concat3;
use crate::messages::EpisodeRequest;
use crate::obs_merge::prefixed;
use crate::persistence::{request_checksum, request_checksum_spec, DispatchRecord, RecoveryAgentJob, RecoveryEpisode};
use crate::text::str_eq;
use vstd::prelude::*;

verus! {

broadcast use vstd::string::group_string_axioms;

/// How a persisted episode is taken up again.
#[derive(Debug, Clone, Copy, PartialEq, Eq)]
pub enum RecoveryAction {
    /// It was dispatched: wait for the worker's result until its deadline.
    AwaitDispatch,
    /// It was queued: submit it again.
    Resubmit,
    /// It belongs to an agent job, which is recovered on its own.
    LeaveToAgentJobs,
}

/// The recovery of a persisted episode: refused when the stored request no
/// longer matches its checksum; otherwise a dispatched episode is awaited,
/// an agent job's episode is left to the agent job recovery, a queued one is
/// submitted again, and any other phase without a dispatch is refused.
pub fn plan_recovery(record: &RecoveryEpisode) -> (r: Result<RecoveryAction, String>)
    ensures
        request_checksum_spec(record.request) != record.request_checksum@ ==> (r matches Err(m) && m@
            == "persisted request checksum mismatch for "@ + record.request.episode_id@),
        request_checksum_spec(record.request) == record.request_checksum@ ==> match record.dispatch {
            Some(_) => r == Ok::<RecoveryAction, String>(RecoveryAction::AwaitDispatch),
            None => if record.phase@ == "agent_dispatched"@ {
                r == Ok::<RecoveryAction, String>(RecoveryAction::LeaveToAgentJobs)
            } else if record.phase@ == "queued"@ {
                r == Ok::<RecoveryAction, String>(RecoveryAction::Resubmit)
            } else {
                r matches Err(m) && m@ == "cannot recover episode "@ + record.request.episode_id@ + " in phase "@
                    + record.phase@ + " without dispatch"@
            },
        },
{
    let expected = request_checksum(&record.request);
    if !str_eq(expected.as_str(), record.request_checksum.as_str()) {
        return Err(prefixed("persisted request checksum mismatch for ", record.request.episode_id.as_str()));
    }
    match &record.dispatch {
        Some(_) => Ok(RecoveryAction::AwaitDispatch),
        None => {
            if str_eq(record.phase.as_str(), "agent_dispatched") {
                Ok(RecoveryAction::LeaveToAgentJobs)
            } else if str_eq(record.phase.as_str(), "queued") {
                Ok(RecoveryAction::Resubmit)
            } else {
                let head = concat3("cannot recover episode ", record.request.episode_id.as_str(), " in phase ");
                Err(concat3(head.as_str(), record.phase.as_str(), " without dispatch"))
            }
        },
    }
}

/// The recovery of a persisted agent job: refused when the stored request
/// no longer matches its checksum; otherwise the agent that holds its lease,
/// if the job was leased.
pub fn plan_agent_job_recovery(record: &RecoveryAgentJob) -> (r: Result<Option<String>, String>)
    ensures
        request_checksum_spec(record.request) != record.request_checksum@ ==> (r matches Err(m) && m@
            == "persisted AgentJob request checksum mismatch for "@ + record.request.episode_id@),
        request_checksum_spec(record.request) == record.request_checksum@ ==> (if record.phase@ == "leased"@ {
            r matches Ok(Some(a)) && a@ == record.agent_id@
        } else {
            r matches Ok(None)
        }),
{
    let expected = request_checksum(&record.request);
    if !str_eq(expected.as_str(), record.request_checksum.as_str()) {
        return Err(prefixed("persisted AgentJob request checksum mismatch for ", record.request.episode_id.as_str()));
    }
    if str_eq(record.phase.as_str(), "leased") {
        Ok(Some(record.agent_id.clone()))
    } else {
        Ok(None)
    }
}

/// Puts a recovered dispatch back on its request: attempt, lease, token and
/// the epoch it was dispatched in; nothing else changes.
pub fn resume_dispatch(request: &mut EpisodeRequest, dispatch: &DispatchRecord)
    ensures
        final(request).dispatch_token@ == dispatch.dispatch_token@,
        (EpisodeRequest { dispatch_token: old(request).dispatch_token, ..*final(request) }) == (EpisodeRequest {
            attempt_id: dispatch.attempt_id,
            dispatch_lease_id: dispatch.dispatch_lease_id,
            scheduler_epoch: dispatch.server_epoch,
            ..*old(request)
        }),
{
    request.attempt_id = dispatch.attempt_id;
    request.dispatch_lease_id = dispatch.dispatch_lease_id.clone();
    request.dispatch_token = dispatch.dispatch_token.clone();
    request.scheduler_epoch = dispatch.server_epoch;
}

/// How long a recovered wait may last: the milliseconds left until the
/// deadline, 0 once it has passed.
pub fn recovery_wait_ms(deadline_at_ms: i64, now_ms: i64) -> (ms: u64)
    ensures
        ms == (if deadline_at_ms - now_ms <= 0 {
            0
        } else if deadline_at_ms - now_ms > i64::MAX {
            i64::MAX as int
        } else {
            deadline_at_ms - now_ms
        }),
{
    let d: i128 = deadline_at_ms as i128 - now_ms as i128;
    if d <= 0 {
        0
    } else if d > i64::MAX as i128 {
        i64::MAX as u64
    } else {
        d as u64
    }
}

/// `v` held within `i64`.
pub open spec fn clamp_i64(v: int) -> i64 {
    if v > i64::MAX { i64::MAX } else if v < i64::MIN { i64::MIN } else { v as i64 }
}

/// The time before which records have outlived a time-to-live of `ttl_secs`
/// seconds at `now_ms`: the time-to-live is read as an `i64` (as an `as`
/// cast does), turned into milliseconds and taken from `now_ms`, both steps
/// saturating.
pub fn sweep_cutoff_ms(now_ms: i64, ttl_secs: u64) -> (c: i64)
    ensures
        c == clamp_i64(now_ms - clamp_i64((if ttl_secs <= i64::MAX { ttl_secs as int } else { ttl_secs - 0x1_0000_0000_0000_0000 }) * 1000)),
{
    let ttl: i128 = if ttl_secs <= i64::MAX as u64 { ttl_secs as i128 } else { ttl_secs as i128 - 0x1_0000_0000_0000_0000i128 };
    let ms: i128 = ttl * 1000;
    let ms: i128 = if ms > i64::MAX as i128 { i64::MAX as i128 } else if ms < i64::MIN as i128 { i64::MIN as i128 } else { ms };
    let d: i128 = now_ms as i128 - ms;
    if d > i64::MAX as i128 {
        i64::MAX
    } else if d < i64::MIN as i128 {
        i64::MIN
    } else {
        d as i64
    }
}

} // verus!
