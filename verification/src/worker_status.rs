//! How the worker fleet looks to observers: each scheduler snapshot is
//! projected onto a status (`BUSY`, `IDLE`, `ATTENTION` or `OFFLINE`) with a
//! reason, and an observation is only re-published when something an
//! observer sees has changed.
use crate::clock::elapsed_secs;
use crate::config::ServerConfig;
use crate::messages::copy_strings;
use crate::scheduler::WorkerSnapshot;
use vstd::prelude::*;

verus! {

broadcast use vstd::string::group_string_axioms;

/// Settings of the fleet status projection.
#[derive(Debug, Clone, Copy)]
pub struct WorkerStatusSyncConfig {
    pub interval_ms: u64,
    pub heartbeat_timeout_secs: u64,
    pub offline_timeout_secs: u64,
    pub degraded_threshold_secs: u64,
}

impl WorkerStatusSyncConfig {
    /// The projection settings of a server configuration; the sync interval
    /// is the heartbeat interval, at least one second.
    pub fn from_server_config(config: &ServerConfig) -> (c: Self)
        ensures
            c.interval_ms == (if config.scheduler.heartbeat_interval_ms >= 1000 { config.scheduler.heartbeat_interval_ms } else { 1000 }),
            c.heartbeat_timeout_secs == config.scheduler.heartbeat_timeout_secs,
            c.offline_timeout_secs == config.scheduler.worker_offline_timeout_secs,
            c.degraded_threshold_secs == config.scheduler.worker_degraded_threshold_secs,
    {
        WorkerStatusSyncConfig {
            interval_ms: if config.scheduler.heartbeat_interval_ms >= 1000 { config.scheduler.heartbeat_interval_ms } else { 1000 },
            heartbeat_timeout_secs: config.scheduler.heartbeat_timeout_secs,
            offline_timeout_secs: config.scheduler.worker_offline_timeout_secs,
            degraded_threshold_secs: config.scheduler.worker_degraded_threshold_secs,
        }
    }
}

/// A worker as observers see it. Times are milliseconds since the epoch.
#[derive(Debug, Clone)]
pub struct WorkerStatusObservation {
    pub worker_id: String,
    pub status: String,
    pub status_reason: String,
    pub status_changed_ts: i64,
    pub last_heartbeat_ts: i64,
    pub current_load: u32,
    pub capacity: u32,
    pub endpoint: String,
    pub supported_env_types: Vec<String>,
    pub active_episodes: Vec<String>,
}

/// Seconds since the optional time `at`, measured at `now` (a negative
/// `now` counts as 0).
pub open spec fn age_of(at: Option<u64>, now: i64) -> Option<nat> {
    match at {
        Some(t) => Some(elapsed_secs(if now >= 0 { now as u64 } else { 0 }, t)),
        None => None,
    }
}

/// The status and reason of a worker, checked in this order: heartbeat
/// older than the offline timeout; draining; zero capacity; over capacity;
/// no heartbeat yet; late heartbeat; load without any report; load with a
/// report older than the degraded threshold; degraded; load; idle.
pub open spec fn status_spec(w: WorkerSnapshot, c: WorkerStatusSyncConfig, now: i64) -> (Seq<char>, Seq<char>) {
    let hb = age_of(w.last_heartbeat_at, now);
    let rep = age_of(w.last_report_at, now);
    if hb matches Some(a) && a > c.offline_timeout_secs {
        ("OFFLINE"@, "HEARTBEAT_TIMEOUT"@)
    } else if w.draining {
        ("ATTENTION"@, "DRAINING"@)
    } else if w.capacity == 0 {
        ("ATTENTION"@, "CAPACITY_ZERO"@)
    } else if w.current_load > w.capacity {
        ("ATTENTION"@, "OVER_CAPACITY"@)
    } else if hb is None {
        ("ATTENTION"@, "HEARTBEAT_UNKNOWN"@)
    } else if hb matches Some(a) && a > c.heartbeat_timeout_secs {
        ("ATTENTION"@, "HEARTBEAT_LATE"@)
    } else if w.current_load > 0 && rep is None {
        ("ATTENTION"@, "REPORT_UNKNOWN"@)
    } else if w.current_load > 0 && (rep matches Some(a) && a > c.degraded_threshold_secs) {
        ("ATTENTION"@, "REPORT_STALLED"@)
    } else if w.degraded {
        ("ATTENTION"@, "DEGRADED"@)
    } else if w.current_load > 0 {
        ("BUSY"@, "RUNNING_EPISODES"@)
    } else {
        ("IDLE"@, "READY"@)
    }
}

/// `a - b` in `i64`, stopping at the type's bounds.
pub open spec fn sat_sub_i64(a: i64, b: i64) -> i64 {
    if a - b > i64::MAX { i64::MAX } else if a - b < i64::MIN { i64::MIN } else { (a - b) as i64 }
}

/// The observation of a worker at time `now`. The status change time is kept
/// from the previous observation while status and reason stay the same; the
/// last heartbeat time is `now` minus the heartbeat's age in whole seconds.
pub open spec fn projected(w: WorkerSnapshot, previous: Option<WorkerStatusObservation>, c: WorkerStatusSyncConfig, now: i64, active: Seq<String>, o: WorkerStatusObservation) -> bool {
    let (st, re) = status_spec(w, c, now);
    &&& o.worker_id@ == w.worker_id@
    &&& o.status@ == st
    &&& o.status_reason@ == re
    &&& o.status_changed_ts == (match previous {
        Some(p) if p.status@ == st && p.status_reason@ == re && p.status_changed_ts > 0 => p.status_changed_ts,
        _ => now,
    })
    &&& o.last_heartbeat_ts == (match age_of(w.last_heartbeat_at, now) {
        Some(a) => sat_sub_i64(now, if a * 1000 > i64::MAX { i64::MAX } else { (a * 1000) as i64 }),
        None => 0,
    })
    &&& o.current_load == w.current_load
    &&& o.capacity == w.capacity
    &&& o.endpoint@ == w.endpoint@
    &&& o.supported_env_types@ == w.supported_env_types@
    &&& o.active_episodes@ == active
}

fn age(at: Option<u64>, now: i64) -> (a: Option<u64>)
    ensures
        match age_of(at, now) {
            Some(x) => a == Some(x as u64),
            None => a is None,
        },
{
    match at {
        Some(t) => {
            let n: u64 = if now >= 0 { now as u64 } else { 0 };
            Some(crate::clock::elapsed_secs_between(n, t))
        },
        None => None,
    }
}

/// Projects a scheduler snapshot onto an observation at time `now`.
pub fn project_worker_status(worker: &WorkerSnapshot, previous: Option<&WorkerStatusObservation>, config: WorkerStatusSyncConfig, now: i64, active_episodes: Vec<String>) -> (o: WorkerStatusObservation)
    ensures
        projected(*worker, match previous { Some(p) => Some(*p), None => None }, config, now, active_episodes@, o),
{
    let heartbeat_age = age(worker.last_heartbeat_at, now);
    let report_age = age(worker.last_report_at, now);
    let offline = match heartbeat_age { Some(a) => a > config.offline_timeout_secs, None => false };
    let late = match heartbeat_age { Some(a) => a > config.heartbeat_timeout_secs, None => false };
    let stalled = match report_age { Some(a) => a > config.degraded_threshold_secs, None => false };
    let (status, reason): (&str, &str) = if offline {
        ("OFFLINE", "HEARTBEAT_TIMEOUT")
    } else if worker.draining {
        ("ATTENTION", "DRAINING")
    } else if worker.capacity == 0 {
        ("ATTENTION", "CAPACITY_ZERO")
    } else if worker.current_load > worker.capacity {
        ("ATTENTION", "OVER_CAPACITY")
    } else if heartbeat_age.is_none() {
        ("ATTENTION", "HEARTBEAT_UNKNOWN")
    } else if late {
        ("ATTENTION", "HEARTBEAT_LATE")
    } else if worker.current_load > 0 && report_age.is_none() {
        ("ATTENTION", "REPORT_UNKNOWN")
    } else if worker.current_load > 0 && stalled {
        ("ATTENTION", "REPORT_STALLED")
    } else if worker.degraded {
        ("ATTENTION", "DEGRADED")
    } else if worker.current_load > 0 {
        ("BUSY", "RUNNING_EPISODES")
    } else {
        ("IDLE", "READY")
    };
    let status = status.to_string();
    let reason = reason.to_string();
    let status_changed_ts = match previous {
        Some(old) => {
            if old.status == status && old.status_reason == reason && old.status_changed_ts > 0 {
                old.status_changed_ts
            } else {
                now
            }
        },
        None => now,
    };
    let last_heartbeat_ts = match heartbeat_age {
        Some(a) => {
            let ms: i64 = if a > 9223372036854775 { i64::MAX } else { (a * 1000) as i64 };
            if now < i64::MIN + ms { i64::MIN } else { now - ms }
        },
        None => 0,
    };
    WorkerStatusObservation {
        worker_id: worker.worker_id.clone(),
        status,
        status_reason: reason,
        status_changed_ts,
        last_heartbeat_ts,
        current_load: worker.current_load,
        capacity: worker.capacity,
        endpoint: worker.endpoint.clone(),
        supported_env_types: copy_strings(&worker.supported_env_types),
        active_episodes,
    }
}

/// Two lists of strings with the same contents.
pub open spec fn same_strings(a: Seq<String>, b: Seq<String>) -> bool {
    a.len() == b.len() && forall|i: int| 0 <= i < a.len() ==> #[trigger] a[i]@ == b[i]@
}

fn strings_equal(a: &Vec<String>, b: &Vec<String>) -> (r: bool)
    ensures
        r == same_strings(a@, b@),
{
    if a.len() != b.len() {
        return false;
    }
    let mut i: usize = 0;
    while i < a.len()
        invariant
            a@.len() == b@.len(),
            i <= a@.len(),
            forall|j: int| 0 <= j < i ==> #[trigger] a@[j]@ == b@[j]@,
        decreases a@.len() - i,
    {
        if a[i] != b[i] {
            return false;
        }
        i = i + 1;
    }
    true
}

/// Has anything an observer sees changed (the heartbeat time aside)?
pub open spec fn observation_changed(p: WorkerStatusObservation, n: WorkerStatusObservation) -> bool {
    p.status@ != n.status@ || p.status_reason@ != n.status_reason@ || p.current_load != n.current_load
        || p.capacity != n.capacity || p.endpoint@ != n.endpoint@ || !same_strings(p.supported_env_types@, n.supported_env_types@)
        || !same_strings(p.active_episodes@, n.active_episodes@)
}

/// Should the new observation be published?
pub fn worker_observation_changed(previous: &WorkerStatusObservation, next: &WorkerStatusObservation) -> (b: bool)
    ensures
        b == observation_changed(*previous, *next),
{
    previous.status != next.status || previous.status_reason != next.status_reason
        || previous.current_load != next.current_load || previous.capacity != next.capacity
        || previous.endpoint != next.endpoint || !strings_equal(&previous.supported_env_types, &next.supported_env_types)
        || !strings_equal(&previous.active_episodes, &next.active_episodes)
}

/// Law: projecting the same snapshot again, with the earlier observation as
/// the previous one, publishes nothing and keeps the status change time.
pub proof fn law_reprojection_is_stable(w: WorkerSnapshot, c: WorkerStatusSyncConfig, now1: i64, now2: i64, active: Seq<String>, o1: WorkerStatusObservation, o2: WorkerStatusObservation)
    requires
        projected(w, None, c, now1, active, o1),
        projected(w, Some(o1), c, now2, active, o2),
        status_spec(w, c, now1) == status_spec(w, c, now2),
        now1 > 0,
    ensures
        !observation_changed(o1, o2),
        o2.status_changed_ts == o1.status_changed_ts,
{
}

/// The heartbeat (or report) recorded at `at`, if any, is more than `limit`
/// seconds old at `now`.
pub open spec fn older_than(at: Option<u64>, now: i64, limit: u64) -> bool {
    at matches Some(t) && elapsed_secs(if now >= 0 { now as u64 } else { 0 }, t) > limit
}

/// Law: how a worker's own fields decide its observed status.
/// - A heartbeat older than the offline timeout makes it OFFLINE.
/// - Otherwise a draining worker needs ATTENTION for DRAINING, whatever its load.
/// - A live, not draining, not degraded worker within capacity with a fresh
///   heartbeat is IDLE (READY) without load, and BUSY (RUNNING_EPISODES)
///   with load and a fresh report.
/// - Otherwise, in this order, it needs ATTENTION for: zero capacity, load
///   over capacity, no heartbeat yet, a late heartbeat, load without any
///   report, load with a stalled report, being degraded.
/// - Only such a worker is IDLE: an IDLE worker is not draining, has
///   capacity, no load, a heartbeat within the heartbeat timeout, and is not
///   degraded.
pub proof fn law_status_follows_worker_fields(w: WorkerSnapshot, c: WorkerStatusSyncConfig, now: i64)
    ensures
        older_than(w.last_heartbeat_at, now, c.offline_timeout_secs) ==> status_spec(w, c, now) == ("OFFLINE"@, "HEARTBEAT_TIMEOUT"@),
        !older_than(w.last_heartbeat_at, now, c.offline_timeout_secs) && w.draining ==> status_spec(w, c, now) == (
        "ATTENTION"@, "DRAINING"@),
        ({
            &&& !older_than(w.last_heartbeat_at, now, c.offline_timeout_secs)
            &&& !w.draining
            &&& w.capacity > 0
            &&& w.current_load == 0
            &&& w.last_heartbeat_at is Some
            &&& !older_than(w.last_heartbeat_at, now, c.heartbeat_timeout_secs)
            &&& !w.degraded
        }) ==> status_spec(w, c, now) == ("IDLE"@, "READY"@),
        ({
            &&& !older_than(w.last_heartbeat_at, now, c.offline_timeout_secs)
            &&& !w.draining
            &&& 0 < w.current_load <= w.capacity
            &&& w.last_heartbeat_at is Some
            &&& !older_than(w.last_heartbeat_at, now, c.heartbeat_timeout_secs)
            &&& w.last_report_at is Some
            &&& !older_than(w.last_report_at, now, c.degraded_threshold_secs)
            &&& !w.degraded
        }) ==> status_spec(w, c, now) == ("BUSY"@, "RUNNING_EPISODES"@),
        !older_than(w.last_heartbeat_at, now, c.offline_timeout_secs) && !w.draining && w.capacity == 0 ==> status_spec(w, c, now)
            == ("ATTENTION"@, "CAPACITY_ZERO"@),
        !older_than(w.last_heartbeat_at, now, c.offline_timeout_secs) && !w.draining && 0 < w.capacity < w.current_load
            ==> status_spec(w, c, now) == ("ATTENTION"@, "OVER_CAPACITY"@),
        !w.draining && 0 < w.capacity && w.current_load <= w.capacity && w.last_heartbeat_at is None ==> status_spec(w, c, now)
            == ("ATTENTION"@, "HEARTBEAT_UNKNOWN"@),
        !older_than(w.last_heartbeat_at, now, c.offline_timeout_secs) && !w.draining && 0 < w.capacity && w.current_load
            <= w.capacity && older_than(w.last_heartbeat_at, now, c.heartbeat_timeout_secs) ==> status_spec(w, c, now) == (
        "ATTENTION"@, "HEARTBEAT_LATE"@),
        ({
            &&& !w.draining
            &&& 0 < w.current_load <= w.capacity
            &&& w.last_heartbeat_at is Some
            &&& !older_than(w.last_heartbeat_at, now, c.heartbeat_timeout_secs)
            &&& !older_than(w.last_heartbeat_at, now, c.offline_timeout_secs)
        }) ==> (w.last_report_at is None ==> status_spec(w, c, now) == ("ATTENTION"@, "REPORT_UNKNOWN"@)) && (older_than(
            w.last_report_at,
            now,
            c.degraded_threshold_secs,
        ) ==> status_spec(w, c, now) == ("ATTENTION"@, "REPORT_STALLED"@)),
        ({
            &&& !w.draining
            &&& 0 < w.capacity
            &&& w.current_load <= w.capacity
            &&& w.last_heartbeat_at is Some
            &&& !older_than(w.last_heartbeat_at, now, c.heartbeat_timeout_secs)
            &&& !older_than(w.last_heartbeat_at, now, c.offline_timeout_secs)
            &&& (w.current_load == 0 || (w.last_report_at is Some && !older_than(w.last_report_at, now, c.degraded_threshold_secs)))
            &&& w.degraded
        }) ==> status_spec(w, c, now) == ("ATTENTION"@, "DEGRADED"@),
        status_spec(w, c, now).0 == "IDLE"@ ==> {
            &&& !w.draining
            &&& w.capacity > 0
            &&& w.current_load == 0
            &&& w.last_heartbeat_at is Some
            &&& !older_than(w.last_heartbeat_at, now, c.heartbeat_timeout_secs)
            &&& !w.degraded
        },
{
    reveal_strlit("IDLE");
    reveal_strlit("BUSY");
    reveal_strlit("OFFLINE");
    reveal_strlit("ATTENTION");
    assert("IDLE"@[0] != "BUSY"@[0]);
    assert("IDLE"@.len() != "OFFLINE"@.len());
    assert("IDLE"@.len() != "ATTENTION"@.len());
}

} // verus!
