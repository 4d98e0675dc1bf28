//! Fresh identifiers: random version-4 UUIDs.
use crate::messages::{EpisodeRequest, Timestamp};
use vstd::prelude::*;

verus! {

/// Calls `uuid::Uuid::new_v4` and formats it as `Display` does: the hyphenated
/// lower-case form, 36 characters. The value is random; nothing else about
/// it is stated.
#[verifier::external_body]
pub(crate) fn new_uuid_string() -> (s: String)
    ensures
        s@.len() == 36,
{
    uuid::Uuid::new_v4().to_string()
}

/// Calls `uuid::Uuid::new_v4` and returns its 16 bytes (`as_bytes`). The
/// value is random; nothing else about it is stated.
#[verifier::external_body]
pub(crate) fn new_uuid_bytes() -> (b: Vec<u8>)
    ensures
        b@.len() == 16,
{
    uuid::Uuid::new_v4().as_bytes().to_vec()
}

/// Fills in what a submission left out: an episode without an id gets a
/// fresh one, attempt 0 becomes attempt 1. Nothing else changes.
pub fn normalize_episode_request(req: &mut EpisodeRequest)
    ensures
        old(req).episode_id@.len() > 0 ==> final(req).episode_id == old(req).episode_id,
        old(req).episode_id@.len() == 0 ==> final(req).episode_id@.len() == 36,
        final(req).attempt_id == (if old(req).attempt_id == 0 { 1 } else { old(req).attempt_id }),
        final(req).env_type == old(req).env_type,
        final(req).payload == old(req).payload,
        final(req).timeout_seconds == old(req).timeout_seconds,
        final(req).correlation_id == old(req).correlation_id,
        final(req).parallel_mode == old(req).parallel_mode,
        final(req).metadata == old(req).metadata,
        final(req).env_package_id == old(req).env_package_id,
        final(req).env_package_version == old(req).env_package_version,
        final(req).resource_spec == old(req).resource_spec,
        final(req).enqueue_ts == old(req).enqueue_ts,
        final(req).dispatch_lease_id == old(req).dispatch_lease_id,
        final(req).dispatch_token == old(req).dispatch_token,
        final(req).scheduler_epoch == old(req).scheduler_epoch,
        final(req).lease_expire_at == old(req).lease_expire_at,
{
    if req.episode_id.as_str().unicode_len() == 0 {
        req.episode_id = new_uuid_string();
    }
    if req.attempt_id == 0 {
        req.attempt_id = 1;
    }
}

/// Stamps a request for dispatch: the attempt's lease id, a fresh random
/// 16-byte dispatch token that the worker must send back with its result, the
/// scheduler epoch, and the end of the lease (`lease_expire_at_secs`, Unix
/// seconds). Nothing else changes.
pub fn stamp_dispatch(req: &mut EpisodeRequest, lease_id: String, epoch: u64, lease_expire_at_secs: i64)
    ensures
        final(req).dispatch_lease_id == lease_id,
        final(req).dispatch_token@.len() == 16,
        final(req).scheduler_epoch == epoch,
        final(req).lease_expire_at == Some(Timestamp { seconds: lease_expire_at_secs, nanos: 0 }),
        final(req).episode_id == old(req).episode_id,
        final(req).attempt_id == old(req).attempt_id,
        final(req).env_type == old(req).env_type,
        final(req).payload == old(req).payload,
        final(req).timeout_seconds == old(req).timeout_seconds,
        final(req).correlation_id == old(req).correlation_id,
        final(req).parallel_mode == old(req).parallel_mode,
        final(req).metadata == old(req).metadata,
        final(req).env_package_id == old(req).env_package_id,
        final(req).env_package_version == old(req).env_package_version,
        final(req).resource_spec == old(req).resource_spec,
        final(req).enqueue_ts == old(req).enqueue_ts,
{
    req.dispatch_lease_id = lease_id;
    req.dispatch_token = new_uuid_bytes();
    req.scheduler_epoch = epoch;
    req.lease_expire_at = Some(Timestamp { seconds: lease_expire_at_secs, nanos: 0 });
}

} // verus!
