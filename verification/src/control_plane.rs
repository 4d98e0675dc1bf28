//! The worker-facing control plane: what a registration and a heartbeat
//! carry, how a registration becomes a scheduler record, and the replies.
use crate::ids::new_uuid_string;
use crate::messages::ResourceSpec;
use crate::scheduler::{copy_packages, SyncedEnvPackageInfo, WorkerInfo};
use crate::messages::copy_strings;
use crate::text::str_eq;
use vstd::prelude::*;

verus! {

broadcast use vstd::string::group_string_axioms;

/// A worker's registration.
#[derive(Debug)]
pub struct RegisterWorkerRequest {
    pub worker_id: String,
    pub endpoint: String,
    pub supported_env_types: Vec<String>,
    pub max_concurrent: u32,
    pub resource: Option<ResourceSpec>,
    pub load: i32,
    pub max_load: i32,
    pub gateway_public_url: String,
    pub synced_env_packages: Vec<SyncedEnvPackageInfo>,
}

/// The answer to a registration.
#[derive(Debug)]
pub struct RegisterWorkerResponse {
    pub accepted: bool,
    pub worker_id: String,
    pub message: String,
    pub server_epoch: u64,
}

/// A worker's heartbeat.
#[derive(Debug)]
pub struct HeartbeatRequest {
    pub worker_id: String,
    pub load: i32,
    pub max_load: i32,
    pub timestamp_ms: i64,
}

/// The answer to a heartbeat.
#[derive(Debug)]
pub struct HeartbeatResponse {
    pub ok: bool,
    pub drain: Option<bool>,
    pub server_epoch: u64,
    pub next_heartbeat_interval_ms: i32,
}

/// Does a worker ask the server to choose its id (empty or `auto`)?
pub open spec fn asks_for_id(requested: Seq<char>) -> bool {
    requested.len() == 0 || requested == "auto"@
}

/// The id a registering worker gets: a fresh 36-character UUID when it asks
/// for one, the id it sent otherwise.
pub fn registered_worker_id(requested: &str) -> (id: String)
    ensures
        asks_for_id(requested@) ==> id@.len() == 36,
        !asks_for_id(requested@) ==> id@ == requested@,
{
    if requested.is_empty() || str_eq(requested, "auto") {
        new_uuid_string()
    } else {
        requested.to_string()
    }
}

/// A signed load or limit read as a count, negative values as 0.
pub open spec fn clamped(v: i32) -> u32 {
    if v > 0 { v as u32 } else { 0 }
}

/// A signed load or limit read as a count, negative values as 0.
pub fn clamp_count(v: i32) -> (c: u32)
    ensures
        c == clamped(v),
{
    if v > 0 { v as u32 } else { 0 }
}

/// The capacity a registration declares: its maximum load when positive,
/// else its maximum concurrency when positive, else 1.
pub open spec fn declared_capacity_spec(max_load: i32, max_concurrent: u32) -> u32 {
    if max_load > 0 {
        max_load as u32
    } else if max_concurrent > 0 {
        max_concurrent
    } else {
        1
    }
}

/// The capacity a registration declares (see `declared_capacity_spec`).
pub fn declared_capacity(max_load: i32, max_concurrent: u32) -> (c: u32)
    ensures
        c == declared_capacity_spec(max_load, max_concurrent),
{
    if max_load > 0 {
        max_load as u32
    } else if max_concurrent > 0 {
        max_concurrent
    } else {
        1
    }
}

/// The scheduler record of a worker registering under `worker_id` at time
/// `now`: its endpoint, environment types, resources, gateway and packages
/// as sent; the declared capacity; its reported load (negative as 0) as
/// current and reported load, nothing reserved; not draining; reported and
/// heard from at `now`.
pub fn worker_info_for_registration(req: &RegisterWorkerRequest, worker_id: String, now: u64) -> (w: WorkerInfo)
    ensures
        w.worker_id == worker_id,
        w.endpoint@ == req.endpoint@,
        w.supported_env_types@ == req.supported_env_types@,
        w.capacity == declared_capacity_spec(req.max_load, req.max_concurrent),
        w.current_load == clamped(req.load),
        w.reserved_load == 0,
        w.reported_load == clamped(req.load),
        w.resource == req.resource,
        !w.draining,
        w.last_report_at == Some(now),
        w.last_heartbeat_at == Some(now),
        w.gateway_public_url@ == req.gateway_public_url@,
        w.synced_env_packages@ == req.synced_env_packages@,
{
    let load = clamp_count(req.load);
    WorkerInfo {
        worker_id,
        endpoint: req.endpoint.clone(),
        supported_env_types: copy_strings(&req.supported_env_types),
        capacity: declared_capacity(req.max_load, req.max_concurrent),
        current_load: load,
        reserved_load: 0,
        reported_load: load,
        resource: match &req.resource {
            Some(r) => Some(r.clone()),
            None => None,
        },
        draining: false,
        last_report_at: Some(now),
        last_heartbeat_at: Some(now),
        gateway_public_url: req.gateway_public_url.clone(),
        synced_env_packages: copy_packages(&req.synced_env_packages),
    }
}

/// The answer to a registration: accepted, or refused because the id still
/// holds leases (the old record is then draining).
pub fn registration_reply(accepted: bool, worker_id: String, server_epoch: u64) -> (r: RegisterWorkerResponse)
    ensures
        r.accepted == accepted,
        r.worker_id == worker_id,
        r.server_epoch == server_epoch,
        accepted ==> r.message@ == "accepted"@,
        !accepted ==> r.message@ == "worker_id already has active lease; existing worker marked draining"@,
{
    let message = if accepted {
        "accepted".to_string()
    } else {
        "worker_id already has active lease; existing worker marked draining".to_string()
    };
    RegisterWorkerResponse { accepted, worker_id, message, server_epoch }
}

/// How long a heartbeat took to arrive, in milliseconds: the time now minus
/// the worker's timestamp, 0 for a timestamp in the future, at most
/// `i64::MAX`.
pub fn heartbeat_lag_ms(now_ms: i64, timestamp_ms: i64) -> (lag: i64)
    ensures
        lag == (if now_ms - timestamp_ms <= 0 {
            0
        } else if now_ms - timestamp_ms > i64::MAX {
            i64::MAX as int
        } else {
            now_ms - timestamp_ms
        }),
{
    let d: i128 = now_ms as i128 - timestamp_ms as i128;
    if d <= 0 {
        0
    } else if d > i64::MAX as i128 {
        i64::MAX
    } else {
        d as i64
    }
}

/// The answer to a heartbeat: acknowledged, no drain request, the server's
/// epoch and the interval the worker should keep.
pub fn heartbeat_reply(server_epoch: u64, interval_ms: u64) -> (r: HeartbeatResponse)
    ensures
        r.ok,
        r.drain is None,
        r.server_epoch == server_epoch,
        r.next_heartbeat_interval_ms == (interval_ms as i32),
{
    #[verifier::truncate]
    let interval = interval_ms as i32;
    HeartbeatResponse { ok: true, drain: None, server_epoch, next_heartbeat_interval_ms: interval }
}

} // verus!
