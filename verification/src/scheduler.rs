//! Round-robin worker scheduler.
//!
//! The scheduler keeps the registered workers with their server-side
//! reservations and the loads that their heartbeats report. A worker can take
//! an episode when it is not draining, not degraded, supports the episode's
//! environment type, has room below its capacity, offers the requested
//! resources and has synced the requested environment package. Among those
//! candidates the scheduler takes turns with a counter.
use crate::clock::{clock_ms, elapsed_secs, elapsed_secs_between};
use crate::messages::{copy_strings, EpisodeRequest, ResourceSpec};
use crate::text::str_eq;
use vstd::prelude::*;

verus! {

/// An environment package that a worker has synced.
#[derive(Debug)]
pub struct SyncedEnvPackageInfo {
    pub package_id: String,
    pub version: String,
    pub bundle_digest: String,
}

impl Clone for SyncedEnvPackageInfo {
    fn clone(&self) -> (c: Self)
        ensures
            c == *self,
    {
        SyncedEnvPackageInfo {
            package_id: self.package_id.clone(),
            version: self.version.clone(),
            bundle_digest: self.bundle_digest.clone(),
        }
    }
}

/// A copy of a list of synced packages.
pub fn copy_packages(v: &Vec<SyncedEnvPackageInfo>) -> (c: Vec<SyncedEnvPackageInfo>)
    ensures
        c@ == v@,
{
    let mut c: Vec<SyncedEnvPackageInfo> = Vec::new();
    let mut i: usize = 0;
    while i < v.len()
        invariant
            i <= v@.len(),
            c@ == v@.take(i as int),
        decreases v@.len() - i,
    {
        c.push(v[i].clone());
        proof {
            assert(v@.take(i + 1) =~= v@.take(i as int).push(v@[i as int]));
        }
        i = i + 1;
    }
    proof {
        assert(v@.take(i as int) =~= v@);
    }
    c
}

/// A worker as the scheduler keeps it. Times are milliseconds since the Unix
/// epoch.
#[derive(Debug)]
pub struct WorkerInfo {
    pub worker_id: String,
    pub endpoint: String,
    pub supported_env_types: Vec<String>,
    /// Maximum number of concurrent episodes that the worker declared.
    pub capacity: u32,
    /// Load shown to observers: the larger of the reserved and reported loads.
    pub current_load: u32,
    /// Episodes assigned by the server that a heartbeat may not show yet.
    pub reserved_load: u32,
    /// Load that the worker's last heartbeat reported.
    pub reported_load: u32,
    pub resource: Option<ResourceSpec>,
    /// A draining worker takes no new episodes.
    pub draining: bool,
    pub last_report_at: Option<u64>,
    pub last_heartbeat_at: Option<u64>,
    pub gateway_public_url: String,
    pub synced_env_packages: Vec<SyncedEnvPackageInfo>,
}

/// What a registration did to the scheduler's capacity.
#[derive(Debug, Clone, Copy, PartialEq, Eq)]
pub struct WorkerRegistration {
    pub accepted: bool,
    pub old_capacity: u32,
    pub new_capacity: u32,
}

/// The worker chosen for an episode.
#[derive(Debug)]
pub struct WorkerAssignment {
    pub worker_id: String,
    pub endpoint: String,
    pub gateway_public_url: String,
}

/// Why no worker could be chosen.
#[derive(Debug, Clone, Copy, PartialEq, Eq)]
pub enum ScheduleError {
    NoWorkerAvailable,
    NoMatchingEnvType,
    AllWorkersAtCapacity,
    NoMatchingEnvPackage,
}

/// The message of a scheduling error.
pub open spec fn schedule_error_text(e: ScheduleError) -> Seq<char> {
    match e {
        ScheduleError::NoWorkerAvailable => "no worker available"@,
        ScheduleError::NoMatchingEnvType => "no worker supports env type"@,
        ScheduleError::AllWorkersAtCapacity => "all workers at capacity"@,
        ScheduleError::NoMatchingEnvPackage => "no worker has synced the requested env_package"@,
    }
}

impl ScheduleError {
    /// The error's message.
    pub fn message(&self) -> (s: &'static str)
        ensures
            s@ == schedule_error_text(*self),
    {
        match self {
            ScheduleError::NoWorkerAvailable => "no worker available",
            ScheduleError::NoMatchingEnvType => "no worker supports env type",
            ScheduleError::AllWorkersAtCapacity => "all workers at capacity",
            ScheduleError::NoMatchingEnvPackage => "no worker has synced the requested env_package",
        }
    }
}

/// A copy of a worker's state for observers.
#[derive(Debug)]
pub struct WorkerSnapshot {
    pub worker_id: String,
    pub endpoint: String,
    pub supported_env_types: Vec<String>,
    pub capacity: u32,
    pub current_load: u32,
    pub reserved_load: u32,
    pub reported_load: u32,
    pub draining: bool,
    pub last_report_at: Option<u64>,
    pub last_heartbeat_at: Option<u64>,
    pub degraded: bool,
    pub gateway_public_url: String,
    pub synced_env_packages: Vec<SyncedEnvPackageInfo>,
}

// ---------------------------------------------------------------------------
// Rules on one worker
// ---------------------------------------------------------------------------
/// The larger of the reserved and the reported load.
pub open spec fn effective_load_spec(w: WorkerInfo) -> u32 {
    if w.reserved_load >= w.reported_load {
        w.reserved_load
    } else {
        w.reported_load
    }
}

/// A worker is degraded when its heartbeat is older than the heartbeat
/// timeout, or when it has load and its last report is older than the
/// degraded threshold.
pub open spec fn degraded_spec(w: WorkerInfo, threshold_secs: u64, heartbeat_timeout_secs: u64, now: u64) -> bool {
    (w.last_heartbeat_at is Some && elapsed_secs(now, w.last_heartbeat_at.unwrap()) > heartbeat_timeout_secs)
    || (effective_load_spec(w) != 0 && w.last_report_at is Some && elapsed_secs(now, w.last_report_at.unwrap()) > threshold_secs)
}

/// Does the worker list `env` among its environment types?
pub open spec fn supports_env(w: WorkerInfo, env: Seq<char>) -> bool {
    exists|i: int| 0 <= i < w.supported_env_types@.len() && #[trigger] w.supported_env_types@[i]@ == env
}

/// Does the worker offer what the request asks? Zero and empty fields ask
/// for nothing; a worker without a resource record serves only requests that
/// ask for nothing.
pub open spec fn resource_fits_spec(worker: Option<ResourceSpec>, req: Option<ResourceSpec>) -> bool {
    match req {
        None => true,
        Some(r) => {
            if r.cpu_cores == 0 && r.memory_mb == 0 && r.gpu_count == 0 && r.gpu_type@.len() == 0 {
                true
            } else {
                match worker {
                    None => false,
                    Some(w) => (r.cpu_cores == 0 || w.cpu_cores >= r.cpu_cores) && (r.memory_mb == 0
                        || w.memory_mb >= r.memory_mb) && (r.gpu_count == 0 || w.gpu_count
                        >= r.gpu_count) && (r.gpu_type@.len() == 0 || w.gpu_type@ == r.gpu_type@),
                }
            }
        },
    }
}

/// Has the worker synced the requested package (and version, if one is named)?
pub open spec fn package_matches_spec(w: WorkerInfo, req: EpisodeRequest) -> bool {
    req.env_package_id@.len() == 0 || exists|i: int|
        0 <= i < w.synced_env_packages@.len() && #[trigger] w.synced_env_packages@[i].package_id@
            == req.env_package_id@ && (req.env_package_version@.len() == 0
            || w.synced_env_packages@[i].version@ == req.env_package_version@)
}

/// May the worker take the request now?
pub open spec fn eligible_spec(w: WorkerInfo, req: EpisodeRequest, threshold_secs: u64, heartbeat_timeout_secs: u64, now: u64) -> bool {
    &&& !w.draining
    &&& !degraded_spec(w, threshold_secs, heartbeat_timeout_secs, now)
    &&& supports_env(w, req.env_type@)
    &&& effective_load_spec(w) < w.capacity
    &&& resource_fits_spec(w.resource, req.resource_spec)
    &&& package_matches_spec(w, req)
}

/// Positions, in list order, of the first `n` workers that may take the request.
pub open spec fn eligible_prefix(ws: Seq<WorkerInfo>, req: EpisodeRequest, thr: u64, hb: u64, now: u64, n: int) -> Seq<int>
    decreases n,
{
    if n <= 0 {
        Seq::empty()
    } else {
        let p = eligible_prefix(ws, req, thr, hb, now, n - 1);
        if eligible_spec(ws[n - 1], req, thr, hb, now) {
            p.push(n - 1)
        } else {
            p
        }
    }
}

/// Positions, in list order, of the workers that may take the request.
pub open spec fn candidates_spec(ws: Seq<WorkerInfo>, req: EpisodeRequest, thr: u64, hb: u64, now: u64) -> Seq<int> {
    eligible_prefix(ws, req, thr, hb, now, ws.len() as int)
}

/// The reason given when no worker may take the request.
pub open spec fn classify_spec(ws: Seq<WorkerInfo>, req: EpisodeRequest) -> ScheduleError {
    if !(exists|i: int| 0 <= i < ws.len() && supports_env(#[trigger] ws[i], req.env_type@)) {
        if ws.len() == 0 {
            ScheduleError::NoWorkerAvailable
        } else {
            ScheduleError::NoMatchingEnvType
        }
    } else if req.env_package_id@.len() != 0 && !(exists|i: int|
        0 <= i < ws.len() && supports_env(#[trigger] ws[i], req.env_type@) && package_matches_spec(ws[i], req)) {
        ScheduleError::NoMatchingEnvPackage
    } else {
        ScheduleError::AllWorkersAtCapacity
    }
}

/// The outcome of a scheduling decision: the position of the chosen worker,
/// or the reason why there is none. The choice is candidate number
/// `counter % (number of candidates)`.
pub open spec fn pick_spec(ws: Seq<WorkerInfo>, req: EpisodeRequest, thr: u64, hb: u64, now: u64, counter: usize) -> Result<int, ScheduleError> {
    let c = candidates_spec(ws, req, thr, hb, now);
    if c.len() == 0 {
        Err(classify_spec(ws, req))
    } else {
        Ok(c[(counter as int) % (c.len() as int)])
    }
}

/// The assignment describes worker `w`.
pub open spec fn assignment_of(a: WorkerAssignment, w: WorkerInfo) -> bool {
    &&& a.worker_id@ == w.worker_id@
    &&& a.endpoint@ == w.endpoint@
    &&& a.gateway_public_url@ == w.gateway_public_url@
}

/// `w` with one more reservation (saturating) and its shown load refreshed.
pub open spec fn reserved_once(w: WorkerInfo) -> WorkerInfo {
    let r = if w.reserved_load == u32::MAX { w.reserved_load } else { (w.reserved_load + 1) as u32 };
    let w2 = WorkerInfo { reserved_load: r, ..w };
    WorkerInfo { current_load: effective_load_spec(w2), ..w2 }
}

/// `w` with one reservation less (saturating) and its shown load refreshed.
pub open spec fn released_once(w: WorkerInfo) -> WorkerInfo {
    let r = if w.reserved_load == 0 { 0u32 } else { (w.reserved_load - 1) as u32 };
    let w2 = WorkerInfo { reserved_load: r, ..w };
    WorkerInfo { current_load: effective_load_spec(w2), ..w2 }
}

/// Position of the first worker with the given id, if any.
pub open spec fn first_with_id(ws: Seq<WorkerInfo>, id: Seq<char>) -> Option<int> {
    if exists|i: int| 0 <= i < ws.len() && #[trigger] ws[i].worker_id@ == id {
        Some(choose|i: int| 0 <= i < ws.len() && ws[i].worker_id@ == id && forall|j: int|
            0 <= j < i ==> #[trigger] ws[j].worker_id@ != id)
    } else {
        None
    }
}

/// No two workers share an id.
pub open spec fn distinct_ids(ws: Seq<WorkerInfo>) -> bool {
    forall|i: int, j: int|
        0 <= i < ws.len() && 0 <= j < ws.len() && i != j ==> #[trigger] ws[i].worker_id@ != #[trigger] ws[j].worker_id@
}

/// Is there a worker with this id and active load?
pub open spec fn has_loaded_with_id(ws: Seq<WorkerInfo>, id: Seq<char>) -> bool {
    exists|i: int| 0 <= i < ws.len() && #[trigger] ws[i].worker_id@ == id && effective_load_spec(ws[i]) > 0
}

/// Position of the first worker with this id and active load.
pub open spec fn first_loaded_with_id(ws: Seq<WorkerInfo>, id: Seq<char>) -> int {
    choose|i: int| 0 <= i < ws.len() && ws[i].worker_id@ == id && effective_load_spec(ws[i]) > 0
        && forall|j: int| 0 <= j < i ==> !(#[trigger] ws[j].worker_id@ == id && effective_load_spec(ws[j]) > 0)
}

// ---------------------------------------------------------------------------
// Executable rules on one worker
// ---------------------------------------------------------------------------
/// The larger of the reserved and the reported load.
pub fn effective_load(w: &WorkerInfo) -> (l: u32)
    ensures
        l == effective_load_spec(*w),
{
    if w.reserved_load >= w.reported_load {
        w.reserved_load
    } else {
        w.reported_load
    }
}

/// Is the worker degraded at time `now`?
pub fn is_worker_degraded(w: &WorkerInfo, threshold_secs: u64, heartbeat_timeout_secs: u64, now: u64) -> (b: bool)
    ensures
        b == degraded_spec(*w, threshold_secs, heartbeat_timeout_secs, now),
{
    if let Some(t) = w.last_heartbeat_at {
        if elapsed_secs_between(now, t) > heartbeat_timeout_secs {
            return true;
        }
    }
    if effective_load(w) == 0 {
        return false;
    }
    match w.last_report_at {
        None => false,
        Some(t) => elapsed_secs_between(now, t) > threshold_secs,
    }
}

/// Does the worker offer what the request asks?
pub fn resource_fits(worker: &Option<ResourceSpec>, req: &Option<ResourceSpec>) -> (b: bool)
    ensures
        b == resource_fits_spec(*worker, *req),
        req.is_none() ==> b,
        b && (req matches Some(r) && r.cpu_cores > 0) ==> (worker matches Some(w) && w.cpu_cores >= req.unwrap().cpu_cores),
        b && (req matches Some(r) && r.memory_mb > 0) ==> (worker matches Some(w) && w.memory_mb >= req.unwrap().memory_mb),
        b && (req matches Some(r) && r.gpu_count > 0) ==> (worker matches Some(w) && w.gpu_count >= req.unwrap().gpu_count),
        b && (req matches Some(r) && r.gpu_type@.len() > 0) ==> (worker matches Some(w) && w.gpu_type@ == req.unwrap().gpu_type@),
{
    let r = match req {
        None => return true,
        Some(r) => r,
    };
    if r.cpu_cores == 0 && r.memory_mb == 0 && r.gpu_count == 0 && r.gpu_type.as_str().is_empty() {
        return true;
    }
    let w = match worker {
        None => return false,
        Some(w) => w,
    };
    (r.cpu_cores == 0 || w.cpu_cores >= r.cpu_cores) && (r.memory_mb == 0 || w.memory_mb
        >= r.memory_mb) && (r.gpu_count == 0 || w.gpu_count >= r.gpu_count) && (
    r.gpu_type.as_str().is_empty() || w.gpu_type == r.gpu_type)
}

/// Has the worker synced the requested package?
pub fn package_matches(w: &WorkerInfo, request: &EpisodeRequest) -> (b: bool)
    ensures
        b == package_matches_spec(*w, *request),
{
    if request.env_package_id.as_str().is_empty() {
        return true;
    }
    let mut i: usize = 0;
    while i < w.synced_env_packages.len()
        invariant
            i <= w.synced_env_packages@.len(),
            request.env_package_id@.len() != 0,
            forall|j: int| 0 <= j < i ==> !(#[trigger] w.synced_env_packages@[j].package_id@
                == request.env_package_id@ && (request.env_package_version@.len() == 0
                || w.synced_env_packages@[j].version@ == request.env_package_version@)),
        decreases w.synced_env_packages@.len() - i,
    {
        let p = &w.synced_env_packages[i];
        if p.package_id == request.env_package_id && (request.env_package_version.as_str().is_empty()
            || p.version == request.env_package_version) {
            return true;
        }
        i = i + 1;
    }
    false
}

/// Does the worker list `env`?
pub fn supports_env_type(w: &WorkerInfo, env: &String) -> (b: bool)
    ensures
        b == supports_env(*w, env@),
{
    let mut i: usize = 0;
    while i < w.supported_env_types.len()
        invariant
            i <= w.supported_env_types@.len(),
            forall|j: int| 0 <= j < i ==> #[trigger] w.supported_env_types@[j]@ != env@,
        decreases w.supported_env_types@.len() - i,
    {
        if w.supported_env_types[i] == *env {
            return true;
        }
        i = i + 1;
    }
    false
}

/// The dispatch information of a worker.
pub fn assignment_from_worker(w: &WorkerInfo) -> (a: WorkerAssignment)
    ensures
        assignment_of(a, *w),
{
    WorkerAssignment {
        worker_id: w.worker_id.clone(),
        endpoint: w.endpoint.clone(),
        gateway_public_url: w.gateway_public_url.clone(),
    }
}

/// A snapshot of a worker at time `now`.
pub open spec fn snapshot_of(s: WorkerSnapshot, w: WorkerInfo, thr: u64, hb: u64, now: u64) -> bool {
    &&& s.worker_id@ == w.worker_id@
    &&& s.endpoint@ == w.endpoint@
    &&& s.supported_env_types@ == w.supported_env_types@
    &&& s.capacity == w.capacity
    &&& s.current_load == effective_load_spec(w)
    &&& s.reserved_load == w.reserved_load
    &&& s.reported_load == w.reported_load
    &&& s.draining == w.draining
    &&& s.last_report_at == w.last_report_at
    &&& s.last_heartbeat_at == w.last_heartbeat_at
    &&& s.degraded == degraded_spec(w, thr, hb, now)
    &&& s.gateway_public_url@ == w.gateway_public_url@
    &&& s.synced_env_packages@ == w.synced_env_packages@
}

/// The round-robin scheduler.
pub struct RoundRobinScheduler {
    workers: Vec<WorkerInfo>,
    counter: usize,
    degraded_threshold_secs: u64,
    heartbeat_timeout_secs: u64,
}

impl RoundRobinScheduler {
    /// The registered workers, in registration order.
    pub closed spec fn workers_spec(&self) -> Seq<WorkerInfo> {
        self.workers@
    }

    /// The round-robin counter.
    pub closed spec fn counter_spec(&self) -> usize {
        self.counter
    }

    /// Seconds without a report after which a loaded worker is degraded.
    pub closed spec fn threshold_spec(&self) -> u64 {
        self.degraded_threshold_secs
    }

    /// Seconds without a heartbeat after which a worker is degraded.
    pub closed spec fn heartbeat_timeout_spec(&self) -> u64 {
        self.heartbeat_timeout_secs
    }

    /// An empty scheduler.
    pub fn new(degraded_threshold_secs: u64, heartbeat_timeout_secs: u64) -> (s: Self)
        ensures
            s.workers_spec().len() == 0,
            s.counter_spec() == 0,
            s.threshold_spec() == degraded_threshold_secs,
            s.heartbeat_timeout_spec() == heartbeat_timeout_secs,
    {
        RoundRobinScheduler {
            workers: Vec::new(),
            counter: 0,
            degraded_threshold_secs,
            heartbeat_timeout_secs,
        }
    }

    /// Snapshots of all workers at time `now`.
    pub fn list_workers_at(&self, now: u64) -> (v: Vec<WorkerSnapshot>)
        ensures
            v@.len() == self.workers_spec().len(),
            forall|i: int| 0 <= i < v@.len() ==> snapshot_of(#[trigger] v@[i], self.workers_spec()[i], self.threshold_spec(), self.heartbeat_timeout_spec(), now),
    {
        let mut v: Vec<WorkerSnapshot> = Vec::new();
        let mut i: usize = 0;
        while i < self.workers.len()
            invariant
                i <= self.workers@.len(),
                v@.len() == i,
                forall|j: int| 0 <= j < i ==> snapshot_of(#[trigger] v@[j], self.workers@[j], self.degraded_threshold_secs, self.heartbeat_timeout_secs, now),
            decreases self.workers@.len() - i,
        {
            let w = &self.workers[i];
            let s = WorkerSnapshot {
                worker_id: w.worker_id.clone(),
                endpoint: w.endpoint.clone(),
                supported_env_types: copy_strings(&w.supported_env_types),
                capacity: w.capacity,
                current_load: effective_load(w),
                reserved_load: w.reserved_load,
                reported_load: w.reported_load,
                draining: w.draining,
                last_report_at: w.last_report_at,
                last_heartbeat_at: w.last_heartbeat_at,
                degraded: is_worker_degraded(w, self.degraded_threshold_secs, self.heartbeat_timeout_secs, now),
                gateway_public_url: w.gateway_public_url.clone(),
                synced_env_packages: copy_packages(&w.synced_env_packages),
            };
            v.push(s);
            i = i + 1;
        }
        v
    }

    /// Snapshots of all workers, with degradation judged at the current time.
    pub fn list_workers(&self) -> (v: Vec<WorkerSnapshot>)
        ensures
            v@.len() == self.workers_spec().len(),
            exists|now: u64| #[trigger] snapshots_at(v@, self.workers_spec(), self.threshold_spec(), self.heartbeat_timeout_spec(), now),
    {
        let now = clock_ms();
        let v = self.list_workers_at(now);
        assert(snapshots_at(v@, self.workers_spec(), self.threshold_spec(), self.heartbeat_timeout_spec(), now));
        v
    }

    /// Position of the first worker with the given id.
    fn find_worker(&self, worker_id: &str) -> (r: Option<usize>)
        ensures
            r matches Some(i) ==> i < self.workers@.len() && first_with_id(self.workers@, worker_id@) == Some(i as int),
            r is None ==> first_with_id(self.workers@, worker_id@) is None,
    {
        let mut i: usize = 0;
        while i < self.workers.len()
            invariant
                i <= self.workers@.len(),
                forall|j: int| 0 <= j < i ==> #[trigger] self.workers@[j].worker_id@ != worker_id@,
            decreases self.workers@.len() - i,
        {
            if str_eq(self.workers[i].worker_id.as_str(), worker_id) {
                proof {
                    let ws = self.workers@;
                    let id = worker_id@;
                    assert(ws[i as int].worker_id@ == id);
                    let c = choose|k: int| 0 <= k < ws.len() && ws[k].worker_id@ == id && forall|j: int|
                        0 <= j < k ==> #[trigger] ws[j].worker_id@ != id;
                    assert(0 <= (i as int) < ws.len() && ws[i as int].worker_id@ == id && forall|j: int|
                        0 <= j < i ==> #[trigger] ws[j].worker_id@ != id);
                    if c < i {
                        assert(ws[c].worker_id@ != id);
                    }
                    if c > i {
                        assert(ws[i as int].worker_id@ != id);
                    }
                }
                return Some(i);
            }
            i = i + 1;
        }
        None
    }

    /// Records that the worker reported a result at time `now`.
    pub fn touch_worker_report_at(&mut self, worker_id: &str, now: u64)
        ensures
            final(self).workers_spec() == touch_spec(old(self).workers_spec(), worker_id@, now),
            final(self).counter_spec() == old(self).counter_spec(),
            final(self).threshold_spec() == old(self).threshold_spec(),
            final(self).heartbeat_timeout_spec() == old(self).heartbeat_timeout_spec(),
    {
        if let Some(i) = self.find_worker(worker_id) {
            let mut w = self.workers.remove(i);
            w.last_report_at = Some(now);
            self.workers.insert(i, w);
        }
    }

    /// Records that the worker reported a result now.
    pub fn touch_worker_report(&mut self, worker_id: &str)
        ensures
            exists|now: u64| final(self).workers_spec() == #[trigger] touch_spec(old(self).workers_spec(), worker_id@, now),
            final(self).counter_spec() == old(self).counter_spec(),
            final(self).threshold_spec() == old(self).threshold_spec(),
            final(self).heartbeat_timeout_spec() == old(self).heartbeat_timeout_spec(),
    {
        let now = clock_ms();
        self.touch_worker_report_at(worker_id, now);
    }

    /// Number of workers kept, draining ones with load included.
    pub fn worker_count(&self) -> (n: usize)
        ensures
            n == self.workers_spec().len(),
    {
        self.workers.len()
    }

    /// One more server-side reservation on the worker (saturating).
    pub fn increment_load(&mut self, worker_id: &str)
        ensures
            final(self).workers_spec() == (match first_with_id(old(self).workers_spec(), worker_id@) {
                Some(i) => old(self).workers_spec().update(i, reserved_once(old(self).workers_spec()[i])),
                None => old(self).workers_spec(),
            }),
            final(self).counter_spec() == old(self).counter_spec(),
            final(self).threshold_spec() == old(self).threshold_spec(),
            final(self).heartbeat_timeout_spec() == old(self).heartbeat_timeout_spec(),
    {
        self.reserve_load(worker_id);
    }

    fn reserve_load(&mut self, worker_id: &str)
        ensures
            final(self).workers@ == (match first_with_id(old(self).workers@, worker_id@) {
                Some(i) => old(self).workers@.update(i, reserved_once(old(self).workers@[i])),
                None => old(self).workers@,
            }),
            final(self).counter == old(self).counter,
            final(self).degraded_threshold_secs == old(self).degraded_threshold_secs,
            final(self).heartbeat_timeout_secs == old(self).heartbeat_timeout_secs,
    {
        if let Some(i) = self.find_worker(worker_id) {
            let mut w = self.workers.remove(i);
            w.reserved_load = w.reserved_load.saturating_add(1);
            w.current_load = effective_load(&w);
            self.workers.insert(i, w);
            proof {
                assert(self.workers@ =~= old(self).workers@.update(i as int, reserved_once(old(self).workers@[i as int])));
            }
        }
    }

    /// One server-side reservation less on the worker; a draining worker whose
    /// load drops to zero leaves the list.
    pub fn decrement_load(&mut self, worker_id: &str)
        ensures
            final(self).workers_spec() == release_spec(old(self).workers_spec(), worker_id@),
            final(self).counter_spec() == old(self).counter_spec(),
            final(self).threshold_spec() == old(self).threshold_spec(),
            final(self).heartbeat_timeout_spec() == old(self).heartbeat_timeout_spec(),
    {
        self.release(worker_id);
    }

    /// The worker takes no new episodes from now on.
    pub fn set_worker_draining(&mut self, worker_id: &str)
        ensures
            final(self).workers_spec() == (match first_with_id(old(self).workers_spec(), worker_id@) {
                Some(i) => old(self).workers_spec().update(i, WorkerInfo { draining: true, ..old(self).workers_spec()[i] }),
                None => old(self).workers_spec(),
            }),
            final(self).counter_spec() == old(self).counter_spec(),
            final(self).threshold_spec() == old(self).threshold_spec(),
            final(self).heartbeat_timeout_spec() == old(self).heartbeat_timeout_spec(),
    {
        if let Some(i) = self.find_worker(worker_id) {
            let mut w = self.workers.remove(i);
            w.draining = true;
            self.workers.insert(i, w);
        }
    }

    /// Applies a heartbeat received at time `now`: the reported load, the
    /// capacity (unless `max_load` is 0, which means "not reported") and the
    /// heartbeat time; a load of 0 also counts as a report. Returns the old and
    /// new capacity, or `None` for an unknown worker.
    pub fn update_worker_load_at(&mut self, worker_id: &str, load: u32, max_load: u32, now: u64) -> (r: Option<(u32, u32)>)
        ensures
            final(self).workers_spec() == heartbeat_spec(old(self).workers_spec(), worker_id@, load, max_load, now),
            r == (match first_with_id(old(self).workers_spec(), worker_id@) {
                Some(i) => Some((old(self).workers_spec()[i].capacity, heartbeat_applied(old(self).workers_spec()[i], load, max_load, now).capacity)),
                None => None,
            }),
            final(self).counter_spec() == old(self).counter_spec(),
            final(self).threshold_spec() == old(self).threshold_spec(),
            final(self).heartbeat_timeout_spec() == old(self).heartbeat_timeout_spec(),
    {
        if let Some(i) = self.find_worker(worker_id) {
            let mut w = self.workers.remove(i);
            let old_capacity = w.capacity;
            w.reported_load = load;
            if max_load > 0 {
                w.capacity = max_load;
            }
            w.current_load = effective_load(&w);
            w.last_heartbeat_at = Some(now);
            if load == 0 {
                w.last_report_at = Some(now);
            }
            let new_capacity = w.capacity;
            self.workers.insert(i, w);
            proof {
                assert(self.workers@ =~= old(self).workers@.update(i as int, heartbeat_applied(old(self).workers@[i as int], load, max_load, now)));
            }
            Some((old_capacity, new_capacity))
        } else {
            None
        }
    }

    /// Applies a heartbeat received now; see `update_worker_load_at`.
    pub fn update_worker_load(&mut self, worker_id: &str, load: u32, max_load: u32) -> (r: Option<(u32, u32)>)
        ensures
            exists|now: u64| final(self).workers_spec() == #[trigger] heartbeat_spec(old(self).workers_spec(), worker_id@, load, max_load, now),
            r == (match first_with_id(old(self).workers_spec(), worker_id@) {
                Some(i) => Some((old(self).workers_spec()[i].capacity, if max_load > 0 { max_load } else { old(self).workers_spec()[i].capacity })),
                None => None,
            }),
            final(self).counter_spec() == old(self).counter_spec(),
            final(self).threshold_spec() == old(self).threshold_spec(),
            final(self).heartbeat_timeout_spec() == old(self).heartbeat_timeout_spec(),
    {
        let now = clock_ms();
        self.update_worker_load_at(worker_id, load, max_load, now)
    }

    /// May worker `w` take the request at time `now`?
    pub fn worker_is_eligible(&self, w: &WorkerInfo, request: &EpisodeRequest, now: u64) -> (b: bool)
        ensures
            b == eligible_spec(*w, *request, self.threshold_spec(), self.heartbeat_timeout_spec(), now),
    {
        !w.draining && !is_worker_degraded(w, self.degraded_threshold_secs, self.heartbeat_timeout_secs, now)
            && supports_env_type(w, &request.env_type) && effective_load(w) < w.capacity
            && resource_fits(&w.resource, &request.resource_spec) && package_matches(w, request)
    }

    /// Positions of the workers that may take the request at time `now`.
    pub fn eligible_candidate_indices(&self, request: &EpisodeRequest, now: u64) -> (c: Vec<usize>)
        ensures
            c@.len() == candidates_spec(self.workers_spec(), *request, self.threshold_spec(), self.heartbeat_timeout_spec(), now).len(),
            forall|k: int| 0 <= k < c@.len() ==> c@[k] as int == #[trigger] candidates_spec(self.workers_spec(), *request, self.threshold_spec(), self.heartbeat_timeout_spec(), now)[k],
    {
        let mut c: Vec<usize> = Vec::new();
        let mut i: usize = 0;
        while i < self.workers.len()
            invariant
                i <= self.workers@.len(),
                c@.len() == eligible_prefix(self.workers@, *request, self.degraded_threshold_secs, self.heartbeat_timeout_secs, now, i as int).len(),
                forall|k: int| 0 <= k < c@.len() ==> c@[k] as int == #[trigger] eligible_prefix(self.workers@, *request, self.degraded_threshold_secs, self.heartbeat_timeout_secs, now, i as int)[k],
            decreases self.workers@.len() - i,
        {
            if self.worker_is_eligible(&self.workers[i], request, now) {
                c.push(i);
            }
            i = i + 1;
        }
        c
    }

    /// The reason why no worker may take the request.
    pub fn classify_no_candidate(&self, request: &EpisodeRequest) -> (e: ScheduleError)
        ensures
            e == classify_spec(self.workers_spec(), *request),
    {
        let ws = &self.workers;
        let mut any_supports = false;
        let mut any_package = false;
        let mut i: usize = 0;
        while i < ws.len()
            invariant
                i <= ws@.len(),
                any_supports == exists|j: int| 0 <= j < i && supports_env(#[trigger] ws@[j], request.env_type@),
                any_package == exists|j: int| 0 <= j < i && supports_env(#[trigger] ws@[j], request.env_type@) && package_matches_spec(ws@[j], *request),
            decreases ws@.len() - i,
        {
            let s = supports_env_type(&ws[i], &request.env_type);
            if s {
                any_supports = true;
                if package_matches(&ws[i], request) {
                    any_package = true;
                }
            }
            i = i + 1;
        }
        if !any_supports {
            if ws.len() == 0 {
                return ScheduleError::NoWorkerAvailable;
            }
            return ScheduleError::NoMatchingEnvType;
        }
        if !request.env_package_id.as_str().is_empty() && !any_package {
            return ScheduleError::NoMatchingEnvPackage;
        }
        ScheduleError::AllWorkersAtCapacity
    }

    /// Chooses a worker at time `now` without reserving it; the counter moves
    /// on by one when a worker is chosen.
    pub fn schedule_at(&mut self, request: &EpisodeRequest, now: u64) -> (r: Result<WorkerAssignment, ScheduleError>)
        ensures
            final(self).workers_spec() == old(self).workers_spec(),
            final(self).threshold_spec() == old(self).threshold_spec(),
            final(self).heartbeat_timeout_spec() == old(self).heartbeat_timeout_spec(),
            match pick_spec(old(self).workers_spec(), *request, old(self).threshold_spec(), old(self).heartbeat_timeout_spec(), now, old(self).counter_spec()) {
                Ok(i) => r matches Ok(a) && assignment_of(a, old(self).workers_spec()[i])
                    && final(self).counter_spec() == old(self).counter_spec().wrapping_add(1),
                Err(e) => r == Err::<WorkerAssignment, ScheduleError>(e) && final(self).counter_spec() == old(self).counter_spec(),
            },
    {
        let candidates = self.eligible_candidate_indices(request, now);
        if candidates.len() == 0 {
            return Err(self.classify_no_candidate(request));
        }
        let k = self.counter % candidates.len();
        self.counter = self.counter.wrapping_add(1);
        let idx = candidates[k];
        proof {
            lemma_candidates_in_range(self.workers@, *request, self.degraded_threshold_secs, self.heartbeat_timeout_secs, now, self.workers@.len() as int);
        }
        Ok(assignment_from_worker(&self.workers[idx]))
    }

    /// Chooses a worker at time `now` and reserves one slot on it.
    pub fn reserve_at(&mut self, request: &EpisodeRequest, now: u64) -> (r: Result<WorkerAssignment, ScheduleError>)
        ensures
            final(self).threshold_spec() == old(self).threshold_spec(),
            final(self).heartbeat_timeout_spec() == old(self).heartbeat_timeout_spec(),
            match pick_spec(old(self).workers_spec(), *request, old(self).threshold_spec(), old(self).heartbeat_timeout_spec(), now, old(self).counter_spec()) {
                Ok(i) => r matches Ok(a) && assignment_of(a, old(self).workers_spec()[i])
                    && final(self).counter_spec() == old(self).counter_spec().wrapping_add(1)
                    && final(self).workers_spec() == old(self).workers_spec().update(i, reserved_once(old(self).workers_spec()[i])),
                Err(e) => r == Err::<WorkerAssignment, ScheduleError>(e) && final(self).counter_spec() == old(self).counter_spec()
                    && final(self).workers_spec() == old(self).workers_spec(),
            },
    {
        let candidates = self.eligible_candidate_indices(request, now);
        if candidates.len() == 0 {
            return Err(self.classify_no_candidate(request));
        }
        let k = self.counter % candidates.len();
        self.counter = self.counter.wrapping_add(1);
        let idx = candidates[k];
        proof {
            lemma_candidates_in_range(self.workers@, *request, self.degraded_threshold_secs, self.heartbeat_timeout_secs, now, self.workers@.len() as int);
        }
        let mut w = self.workers.remove(idx);
        w.reserved_load = w.reserved_load.saturating_add(1);
        w.current_load = effective_load(&w);
        let a = assignment_from_worker(&w);
        self.workers.insert(idx, w);
        proof {
            assert(self.workers@ =~= old(self).workers@.update(idx as int, reserved_once(old(self).workers@[idx as int])));
        }
        Ok(a)
    }
}

/// The list after a report at `now` by the first worker with the id.
pub open spec fn touch_spec(ws: Seq<WorkerInfo>, id: Seq<char>, now: u64) -> Seq<WorkerInfo> {
    match first_with_id(ws, id) {
        Some(i) => ws.update(i, WorkerInfo { last_report_at: Some(now), ..ws[i] }),
        None => ws,
    }
}

/// The list after a heartbeat at `now` from the first worker with the id.
pub open spec fn heartbeat_spec(ws: Seq<WorkerInfo>, id: Seq<char>, load: u32, max_load: u32, now: u64) -> Seq<WorkerInfo> {
    match first_with_id(ws, id) {
        Some(i) => ws.update(i, heartbeat_applied(ws[i], load, max_load, now)),
        None => ws,
    }
}

/// `v` holds a snapshot at `now` of each worker, in order.
pub open spec fn snapshots_at(v: Seq<WorkerSnapshot>, ws: Seq<WorkerInfo>, thr: u64, hb: u64, now: u64) -> bool {
    v.len() == ws.len() && forall|i: int| 0 <= i < v.len() ==> snapshot_of(#[trigger] v[i], ws[i], thr, hb, now)
}

/// `w` after a heartbeat at `now` with the given load and capacity.
pub open spec fn heartbeat_applied(w: WorkerInfo, load: u32, max_load: u32, now: u64) -> WorkerInfo {
    let cap = if max_load > 0 { max_load } else { w.capacity };
    let w2 = WorkerInfo { reported_load: load, capacity: cap, ..w };
    WorkerInfo {
        current_load: effective_load_spec(w2),
        last_heartbeat_at: Some(now),
        last_report_at: if load == 0 { Some(now) } else { w.last_report_at },
        ..w2
    }
}

/// The list after `release`: one reservation less on the first worker with
/// the id, then every draining worker with that id and no load removed.
pub open spec fn release_spec(ws: Seq<WorkerInfo>, id: Seq<char>) -> Seq<WorkerInfo> {
    let ws2 = match first_with_id(ws, id) {
        Some(i) => ws.update(i, released_once(ws[i])),
        None => ws,
    };
    kept(ws2, id, DropRule::DrainedIdle)
}

/// The list after `unregister_worker`: the first worker with the id is marked
/// draining, then every worker with that id and no load is removed.
pub open spec fn unregister_spec(ws: Seq<WorkerInfo>, id: Seq<char>) -> Seq<WorkerInfo> {
    let ws2 = match first_with_id(ws, id) {
        Some(i) => ws.update(i, WorkerInfo { draining: true, ..ws[i] }),
        None => ws,
    };
    kept(ws2, id, DropRule::Idle)
}

/// The list after an accepted registration: every worker with the id is
/// removed and the new one goes last.
pub open spec fn register_spec(ws: Seq<WorkerInfo>, info: WorkerInfo) -> Seq<WorkerInfo> {
    kept(ws, info.worker_id@, DropRule::Any).push(info)
}

/// Every candidate position is a valid position.
pub proof fn lemma_candidates_in_range(ws: Seq<WorkerInfo>, req: EpisodeRequest, thr: u64, hb: u64, now: u64, n: int)
    requires
        0 <= n <= ws.len(),
    ensures
        forall|k: int| 0 <= k < eligible_prefix(ws, req, thr, hb, now, n).len() ==> 0 <= #[trigger] eligible_prefix(ws, req, thr, hb, now, n)[k] < n,
        forall|k: int| 0 <= k < eligible_prefix(ws, req, thr, hb, now, n).len() ==> eligible_spec(ws[#[trigger] eligible_prefix(ws, req, thr, hb, now, n)[k]], req, thr, hb, now),
        eligible_prefix(ws, req, thr, hb, now, n).len() <= n,
    decreases n,
{
    if n > 0 {
        lemma_candidates_in_range(ws, req, thr, hb, now, n - 1);
    }
}

/// Which workers a list clean-up removes.
#[derive(Debug, Clone, Copy, PartialEq, Eq)]
pub enum DropRule {
    /// Workers with the id that are draining and have no load.
    DrainedIdle,
    /// Workers with the id that have no load.
    Idle,
    /// Every worker with the id.
    Any,
}

/// Does the clean-up remove `w`?
pub open spec fn drop_rule(w: WorkerInfo, id: Seq<char>, rule: DropRule) -> bool {
    w.worker_id@ == id && match rule {
        DropRule::DrainedIdle => w.draining && effective_load_spec(w) == 0,
        DropRule::Idle => effective_load_spec(w) == 0,
        DropRule::Any => true,
    }
}

/// The workers that a clean-up keeps.
pub open spec fn kept(ws: Seq<WorkerInfo>, id: Seq<char>, rule: DropRule) -> Seq<WorkerInfo> {
    ws.filter(|w: WorkerInfo| !drop_rule(w, id, rule))
}

fn drops(w: &WorkerInfo, id: &str, rule: DropRule) -> (b: bool)
    ensures
        b == drop_rule(*w, id@, rule),
{
    if !str_eq(w.worker_id.as_str(), id) {
        return false;
    }
    match rule {
        DropRule::DrainedIdle => w.draining && effective_load(w) == 0,
        DropRule::Idle => effective_load(w) == 0,
        DropRule::Any => true,
    }
}

/// Removes the workers that the rule drops, keeping the order of the others.
fn retain_workers(ws: Vec<WorkerInfo>, id: &str, rule: DropRule) -> (out: Vec<WorkerInfo>)
    ensures
        out@ == kept(ws@, id@, rule),
{
    let ghost orig = ws@;
    let mut rest = ws;
    let mut out: Vec<WorkerInfo> = Vec::new();
    let ghost mut k: int = 0;
    proof {
        reveal(Seq::filter);
        assert(orig.take(0) =~= Seq::<WorkerInfo>::empty());
        assert(orig.skip(0) =~= orig);
    }
    while rest.len() > 0
        invariant
            0 <= k <= orig.len(),
            rest@ == orig.skip(k),
            out@ == kept(orig.take(k), id@, rule),
        decreases rest@.len(),
    {
        let w = rest.remove(0);
        let ghost before = out@;
        proof {
            reveal(Seq::filter);
            assert(w == orig[k]);
            assert(orig.take(k + 1).drop_last() =~= orig.take(k));
            assert(orig.take(k + 1).last() == orig[k]);
            assert(rest@ =~= orig.skip(k + 1));
            assert(kept(orig.take(k + 1), id@, rule) == (if !drop_rule(orig[k], id@, rule) {
                kept(orig.take(k), id@, rule).push(orig[k])
            } else {
                kept(orig.take(k), id@, rule)
            }));
        }
        let d = drops(&w, id, rule);
        if !d {
            out.push(w);
            assert(out@ == before.push(orig[k]));
        } else {
            assert(out@ == before);
        }
        assert(d == drop_rule(orig[k], id@, rule));
        assert(out@ == kept(orig.take(k + 1), id@, rule));
        proof {
            k = k + 1;
        }
    }
    proof {
        assert(orig.take(k) =~= orig);
    }
    out
}

/// The scheduling interface used by the episode service and the control plane.
pub trait Scheduler {
    /// Registers a worker or replaces the record of the same id.
    fn register_worker(&mut self, info: WorkerInfo) -> WorkerRegistration;

    /// Unregisters a worker; one with load stays, draining, until released.
    fn unregister_worker(&mut self, worker_id: &str);

    /// Chooses a worker without reserving it.
    fn schedule(&mut self, request: &EpisodeRequest) -> Result<WorkerAssignment, ScheduleError>;

    /// Chooses a worker and reserves one slot on it.
    fn reserve(&mut self, request: &EpisodeRequest) -> Result<WorkerAssignment, ScheduleError>;

    /// Releases one reservation on a worker.
    fn release(&mut self, worker_id: &str);
}

impl Scheduler for RoundRobinScheduler {
    /// A worker with the same id that still has load is not replaced: it is
    /// marked draining and the registration is refused, so that a new process
    /// under the old id cannot take over the old dispatch leases.
    fn register_worker(&mut self, info: WorkerInfo) -> (reg: WorkerRegistration)
        ensures
            final(self).counter_spec() == old(self).counter_spec(),
            final(self).threshold_spec() == old(self).threshold_spec(),
            final(self).heartbeat_timeout_spec() == old(self).heartbeat_timeout_spec(),
            has_loaded_with_id(old(self).workers_spec(), info.worker_id@) ==> {
                let i = first_loaded_with_id(old(self).workers_spec(), info.worker_id@);
                &&& 0 <= i < old(self).workers_spec().len()
                &&& final(self).workers_spec() == old(self).workers_spec().update(i, WorkerInfo { draining: true, ..old(self).workers_spec()[i] })
                &&& reg == (WorkerRegistration { accepted: false, old_capacity: old(self).workers_spec()[i].capacity, new_capacity: old(self).workers_spec()[i].capacity })
            },
            !has_loaded_with_id(old(self).workers_spec(), info.worker_id@) ==> {
                &&& final(self).workers_spec() == register_spec(old(self).workers_spec(), info)
                &&& reg == (WorkerRegistration {
                    accepted: true,
                    old_capacity: match first_with_id(old(self).workers_spec(), info.worker_id@) {
                        Some(i) => old(self).workers_spec()[i].capacity,
                        None => 0,
                    },
                    new_capacity: info.capacity,
                })
            },
    {
        let mut i: usize = 0;
        while i < self.workers.len()
            invariant
                i <= self.workers@.len(),
                self.workers@ == old(self).workers@,
                self.counter == old(self).counter,
                self.degraded_threshold_secs == old(self).degraded_threshold_secs,
                self.heartbeat_timeout_secs == old(self).heartbeat_timeout_secs,
                forall|j: int| 0 <= j < i ==> !(#[trigger] self.workers@[j].worker_id@ == info.worker_id@ && effective_load_spec(self.workers@[j]) > 0),
            decreases self.workers@.len() - i,
        {
            if self.workers[i].worker_id == info.worker_id && effective_load(&self.workers[i]) > 0 {
                proof {
                    let ws = self.workers@;
                    let id = info.worker_id@;
                    let c = first_loaded_with_id(ws, id);
                    assert(0 <= (i as int) < ws.len() && ws[i as int].worker_id@ == id && effective_load_spec(ws[i as int]) > 0
                        && forall|j: int| 0 <= j < i ==> !(#[trigger] ws[j].worker_id@ == id && effective_load_spec(ws[j]) > 0));
                    if c < i {
                        assert(!(ws[c].worker_id@ == id && effective_load_spec(ws[c]) > 0));
                    }
                    if c > i {
                        assert(!(ws[i as int].worker_id@ == id && effective_load_spec(ws[i as int]) > 0));
                    }
                }
                let mut w = self.workers.remove(i);
                w.draining = true;
                let cap = w.capacity;
                self.workers.insert(i, w);
                proof {
                    assert(self.workers@ =~= old(self).workers@.update(i as int, WorkerInfo { draining: true, ..old(self).workers@[i as int] }));
                }
                return WorkerRegistration { accepted: false, old_capacity: cap, new_capacity: cap };
            }
            i = i + 1;
        }
        let old_capacity = match self.find_worker(info.worker_id.as_str()) {
            Some(j) => self.workers[j].capacity,
            None => 0,
        };
        let new_capacity = info.capacity;
        let ghost id = info.worker_id@;
        let mut ws: Vec<WorkerInfo> = Vec::new();
        std::mem::swap(&mut ws, &mut self.workers);
        let mut ws = retain_workers(ws, info.worker_id.as_str(), DropRule::Any);
        ws.push(info);
        self.workers = ws;
        proof {
            assert(self.workers@ == register_spec(old(self).workers@, info));
            assert(!has_loaded_with_id(old(self).workers@, id));
        }
        WorkerRegistration { accepted: true, old_capacity, new_capacity }
    }

    fn unregister_worker(&mut self, worker_id: &str)
        ensures
            final(self).workers_spec() == unregister_spec(old(self).workers_spec(), worker_id@),
            final(self).counter_spec() == old(self).counter_spec(),
            final(self).threshold_spec() == old(self).threshold_spec(),
            final(self).heartbeat_timeout_spec() == old(self).heartbeat_timeout_spec(),
    {
        self.set_worker_draining(worker_id);
        let ghost mid = self.workers@;
        let mut ws: Vec<WorkerInfo> = Vec::new();
        std::mem::swap(&mut ws, &mut self.workers);
        self.workers = retain_workers(ws, worker_id, DropRule::Idle);
    }

    fn schedule(&mut self, request: &EpisodeRequest) -> (r: Result<WorkerAssignment, ScheduleError>)
        ensures
            final(self).workers_spec() == old(self).workers_spec(),
            final(self).threshold_spec() == old(self).threshold_spec(),
            final(self).heartbeat_timeout_spec() == old(self).heartbeat_timeout_spec(),
            exists|now: u64| #![trigger pick_spec(old(self).workers_spec(), *request, old(self).threshold_spec(), old(self).heartbeat_timeout_spec(), now, old(self).counter_spec())] match pick_spec(old(self).workers_spec(), *request, old(self).threshold_spec(), old(self).heartbeat_timeout_spec(), now, old(self).counter_spec()) {
                Ok(i) => r matches Ok(a) && assignment_of(a, old(self).workers_spec()[i])
                    && final(self).counter_spec() == old(self).counter_spec().wrapping_add(1),
                Err(e) => r == Err::<WorkerAssignment, ScheduleError>(e) && final(self).counter_spec() == old(self).counter_spec(),
            },
    {
        let now = clock_ms();
        self.schedule_at(request, now)
    }

    fn reserve(&mut self, request: &EpisodeRequest) -> (r: Result<WorkerAssignment, ScheduleError>)
        ensures
            final(self).threshold_spec() == old(self).threshold_spec(),
            final(self).heartbeat_timeout_spec() == old(self).heartbeat_timeout_spec(),
            exists|now: u64| #![trigger pick_spec(old(self).workers_spec(), *request, old(self).threshold_spec(), old(self).heartbeat_timeout_spec(), now, old(self).counter_spec())] match pick_spec(old(self).workers_spec(), *request, old(self).threshold_spec(), old(self).heartbeat_timeout_spec(), now, old(self).counter_spec()) {
                Ok(i) => r matches Ok(a) && assignment_of(a, old(self).workers_spec()[i])
                    && final(self).counter_spec() == old(self).counter_spec().wrapping_add(1)
                    && final(self).workers_spec() == old(self).workers_spec().update(i, reserved_once(old(self).workers_spec()[i])),
                Err(e) => r == Err::<WorkerAssignment, ScheduleError>(e) && final(self).counter_spec() == old(self).counter_spec()
                    && final(self).workers_spec() == old(self).workers_spec(),
            },
    {
        let now = clock_ms();
        self.reserve_at(request, now)
    }

    /// A draining worker whose load reaches zero is removed.
    fn release(&mut self, worker_id: &str)
        ensures
            final(self).workers_spec() == release_spec(old(self).workers_spec(), worker_id@),
            final(self).counter_spec() == old(self).counter_spec(),
            final(self).threshold_spec() == old(self).threshold_spec(),
            final(self).heartbeat_timeout_spec() == old(self).heartbeat_timeout_spec(),
    {
        if let Some(i) = self.find_worker(worker_id) {
            let mut w = self.workers.remove(i);
            w.reserved_load = w.reserved_load.saturating_sub(1);
            w.current_load = effective_load(&w);
            self.workers.insert(i, w);
            proof {
                assert(self.workers@ =~= old(self).workers@.update(i as int, released_once(old(self).workers@[i as int])));
            }
        }
        let ghost mid = self.workers@;
        let mut ws: Vec<WorkerInfo> = Vec::new();
        std::mem::swap(&mut ws, &mut self.workers);
        self.workers = retain_workers(ws, worker_id, DropRule::DrainedIdle);
    }
}

// ---------------------------------------------------------------------------
// Laws
// ---------------------------------------------------------------------------
/// A filter that drops nothing leaves the list as it is.
proof fn lemma_kept_all(ws: Seq<WorkerInfo>, id: Seq<char>, rule: DropRule)
    requires
        forall|j: int| 0 <= j < ws.len() ==> !drop_rule(#[trigger] ws[j], id, rule),
    ensures
        kept(ws, id, rule) == ws,
    decreases ws.len(),
{
    reveal(Seq::filter);
    if ws.len() > 0 {
        lemma_kept_all(ws.drop_last(), id, rule);
        assert(ws.drop_last().push(ws.last()) =~= ws);
    }
}

/// What a clean-up keeps is a sub-list: every kept worker comes from the list.
proof fn lemma_kept_sub(ws: Seq<WorkerInfo>, id: Seq<char>, rule: DropRule)
    ensures
        kept(ws, id, rule).len() <= ws.len(),
        forall|j: int| 0 <= j < kept(ws, id, rule).len() ==> !drop_rule(#[trigger] kept(ws, id, rule)[j], id, rule),
        forall|j: int| 0 <= j < kept(ws, id, rule).len() ==> ws.contains(#[trigger] kept(ws, id, rule)[j]),
    decreases ws.len(),
{
    reveal(Seq::filter);
    if ws.len() > 0 {
        lemma_kept_sub(ws.drop_last(), id, rule);
        let k = kept(ws, id, rule);
        let k0 = kept(ws.drop_last(), id, rule);
        assert forall|j: int| 0 <= j < k.len() implies ws.contains(#[trigger] k[j]) by {
            if j < k0.len() {
                assert(ws.drop_last().contains(k0[j]));
                let m = choose|m: int| 0 <= m < ws.drop_last().len() && ws.drop_last()[m] == k0[j];
                assert(ws[m] == k0[j]);
            } else {
                assert(ws[ws.len() - 1] == k[j]);
            }
        }
    }
}

/// A clean-up keeps worker ids distinct.
proof fn lemma_kept_distinct(ws: Seq<WorkerInfo>, id: Seq<char>, rule: DropRule)
    requires
        distinct_ids(ws),
    ensures
        distinct_ids(kept(ws, id, rule)),
    decreases ws.len(),
{
    reveal(Seq::filter);
    if ws.len() > 0 {
        let d = ws.drop_last();
        assert(distinct_ids(d)) by {
            assert forall|a: int, b: int| 0 <= a < d.len() && 0 <= b < d.len() && a != b implies #[trigger] d[a].worker_id@ != #[trigger] d[b].worker_id@ by {
                assert(d[a] == ws[a] && d[b] == ws[b]);
            }
        }
        lemma_kept_distinct(d, id, rule);
        lemma_kept_sub(d, id, rule);
        let k0 = kept(d, id, rule);
        let k = kept(ws, id, rule);
        let last = ws.last();
        assert forall|j: int| 0 <= j < k0.len() implies #[trigger] k0[j].worker_id@ != last.worker_id@ by {
            assert(d.contains(k0[j]));
            let m = choose|m: int| 0 <= m < d.len() && d[m] == k0[j];
            assert(ws[m] == k0[j]);
            assert(ws[ws.len() - 1] == last);
        }
        if !drop_rule(last, id, rule) {
            assert(k == k0.push(last));
            assert forall|a: int, b: int| 0 <= a < k.len() && 0 <= b < k.len() && a != b implies #[trigger] k[a].worker_id@ != #[trigger] k[b].worker_id@ by {
                if a < k0.len() && b < k0.len() {
                } else if a < k0.len() {
                    assert(k[b] == last);
                    assert(k[a] == k0[a]);
                } else {
                    assert(k[a] == last);
                    assert(k[b] == k0[b]);
                }
            }
        }
    }
}

/// No worker in what an `Any` clean-up keeps carries the id.
proof fn lemma_kept_any_lacks_id(ws: Seq<WorkerInfo>, id: Seq<char>)
    ensures
        forall|j: int| 0 <= j < kept(ws, id, DropRule::Any).len() ==> #[trigger] kept(ws, id, DropRule::Any)[j].worker_id@ != id,
{
    lemma_kept_sub(ws, id, DropRule::Any);
}

/// Law: worker ids stay distinct. An accepted registration replaces every
/// record of the id, a refused one only marks a record, and the clean-ups
/// after `release` and `unregister_worker` only remove records.
pub proof fn law_operations_keep_worker_ids_distinct(ws: Seq<WorkerInfo>, info: WorkerInfo, id: Seq<char>)
    requires
        distinct_ids(ws),
    ensures
        distinct_ids(register_spec(ws, info)),
        distinct_ids(release_spec(ws, id)),
        distinct_ids(unregister_spec(ws, id)),
        forall|i: int| 0 <= i < ws.len() ==> distinct_ids(#[trigger] ws.update(i, reserved_once(ws[i]))),
{
    let k = kept(ws, info.worker_id@, DropRule::Any);
    lemma_kept_distinct(ws, info.worker_id@, DropRule::Any);
    lemma_kept_any_lacks_id(ws, info.worker_id@);
    assert(register_spec(ws, info) == k.push(info));
    let r = k.push(info);
    assert forall|a: int, b: int| 0 <= a < r.len() && 0 <= b < r.len() && a != b implies #[trigger] r[a].worker_id@ != #[trigger] r[b].worker_id@ by {
        if a == k.len() {
            assert(r[b] == k[b]);
        } else if b == k.len() {
            assert(r[a] == k[a]);
        } else {
            assert(r[a] == k[a] && r[b] == k[b]);
        }
    }
    let ws2 = match first_with_id(ws, id) {
        Some(i) => ws.update(i, released_once(ws[i])),
        None => ws,
    };
    assert(distinct_ids(ws2)) by {
        if let Some(i) = first_with_id(ws, id) {
            if 0 <= i < ws.len() {
                assert forall|a: int, b: int| 0 <= a < ws2.len() && 0 <= b < ws2.len() && a != b implies #[trigger] ws2[a].worker_id@ != #[trigger] ws2[b].worker_id@ by {
                    assert(ws2[a].worker_id@ == ws[a].worker_id@);
                    assert(ws2[b].worker_id@ == ws[b].worker_id@);
                }
            } else {
                assert(ws2 =~= ws);
            }
        }
    }
    lemma_kept_distinct(ws2, id, DropRule::DrainedIdle);
    assert(release_spec(ws, id) == kept(ws2, id, DropRule::DrainedIdle));
    let ws3 = match first_with_id(ws, id) {
        Some(i) => ws.update(i, WorkerInfo { draining: true, ..ws[i] }),
        None => ws,
    };
    assert(distinct_ids(ws3)) by {
        if let Some(i) = first_with_id(ws, id) {
            if 0 <= i < ws.len() {
                assert forall|a: int, b: int| 0 <= a < ws3.len() && 0 <= b < ws3.len() && a != b implies #[trigger] ws3[a].worker_id@ != #[trigger] ws3[b].worker_id@ by {
                    assert(ws3[a].worker_id@ == ws[a].worker_id@);
                    assert(ws3[b].worker_id@ == ws[b].worker_id@);
                }
            } else {
                assert(ws3 =~= ws);
            }
        }
    }
    lemma_kept_distinct(ws3, id, DropRule::Idle);
    assert(unregister_spec(ws, id) == kept(ws3, id, DropRule::Idle));
    assert forall|i: int| 0 <= i < ws.len() implies distinct_ids(#[trigger] ws.update(i, reserved_once(ws[i]))) by {
        let u = ws.update(i, reserved_once(ws[i]));
        assert forall|a: int, b: int| 0 <= a < u.len() && 0 <= b < u.len() && a != b implies #[trigger] u[a].worker_id@ != #[trigger] u[b].worker_id@ by {
            assert(u[a].worker_id@ == ws[a].worker_id@);
            assert(u[b].worker_id@ == ws[b].worker_id@);
        }
    }
}

/// Law: a reservation never takes a worker past its capacity. The worker
/// that `reserve` chooses ends with a load at most its capacity.
pub proof fn law_reserve_stays_within_capacity(ws: Seq<WorkerInfo>, req: EpisodeRequest, thr: u64, hb: u64, now: u64, counter: usize)
    ensures
        pick_spec(ws, req, thr, hb, now, counter) matches Ok(i) ==> 0 <= i < ws.len()
            && effective_load_spec(reserved_once(ws[i])) <= ws[i].capacity
            && reserved_once(ws[i]).reserved_load == ws[i].reserved_load + 1,
{
    lemma_candidates_in_range(ws, req, thr, hb, now, ws.len() as int);
    let c = candidates_spec(ws, req, thr, hb, now);
    if c.len() > 0 {
        let k = (counter as int) % (c.len() as int);
        vstd::arithmetic::div_mod::lemma_mod_bound(counter as int, c.len() as int);
        assert(0 <= k < c.len());
        assert(eligible_spec(ws[c[k]], req, thr, hb, now));
    }
}

/// Law: the worker `schedule` or `reserve` chooses can serve the request,
/// judged on its own fields: it is not draining, its load (the larger of
/// reserved and reported) is below its capacity, it lists the environment
/// type, and for every resource the request asks for (a nonzero count, a
/// nonempty GPU type) it has a resource record offering at least as much
/// (the same GPU type). Its heartbeat is within the heartbeat timeout, a
/// loaded worker's last report within the degraded threshold, and it has
/// synced the package asked for (in the version asked for, if any).
pub proof fn law_chosen_worker_offers_what_is_asked(ws: Seq<WorkerInfo>, req: EpisodeRequest, thr: u64, hb: u64, now: u64, counter: usize)
    ensures
        pick_spec(ws, req, thr, hb, now, counter) matches Ok(i) ==> {
            let w = ws[i];
            &&& 0 <= i < ws.len()
            &&& !w.draining
            &&& w.reserved_load < w.capacity
            &&& w.reported_load < w.capacity
            &&& exists|j: int| 0 <= j < w.supported_env_types@.len() && #[trigger] w.supported_env_types@[j]@ == req.env_type@
            &&& (req.resource_spec matches Some(r) && r.cpu_cores > 0) ==> (w.resource matches Some(x) && x.cpu_cores
                >= req.resource_spec.unwrap().cpu_cores)
            &&& (req.resource_spec matches Some(r) && r.memory_mb > 0) ==> (w.resource matches Some(x) && x.memory_mb
                >= req.resource_spec.unwrap().memory_mb)
            &&& (req.resource_spec matches Some(r) && r.gpu_count > 0) ==> (w.resource matches Some(x) && x.gpu_count
                >= req.resource_spec.unwrap().gpu_count)
            &&& (req.resource_spec matches Some(r) && r.gpu_type@.len() > 0) ==> (w.resource matches Some(x) && x.gpu_type@
                == req.resource_spec.unwrap().gpu_type@)
            &&& (w.last_heartbeat_at matches Some(t) ==> elapsed_secs(now, t) <= hb)
            &&& ((w.reserved_load > 0 || w.reported_load > 0) && w.last_report_at is Some) ==> elapsed_secs(
                now,
                w.last_report_at.unwrap(),
            ) <= thr
            &&& req.env_package_id@.len() > 0 ==> exists|j: int|
                0 <= j < w.synced_env_packages@.len() && #[trigger] w.synced_env_packages@[j].package_id@
                    == req.env_package_id@ && (req.env_package_version@.len() == 0
                    || w.synced_env_packages@[j].version@ == req.env_package_version@)
        },
{
    law_reserve_picks_an_eligible_worker(ws, req, thr, hb, now, counter);
}

/// Whether the worker has synced the package version the request names,
/// read off its package list (nothing is asked when no package is named).
pub open spec fn has_asked_package(w: WorkerInfo, req: EpisodeRequest) -> bool {
    req.env_package_id@.len() == 0 || exists|j: int|
        0 <= j < w.synced_env_packages@.len() && #[trigger] w.synced_env_packages@[j].package_id@ == req.env_package_id@
            && (req.env_package_version@.len() == 0 || w.synced_env_packages@[j].version@ == req.env_package_version@)
}

/// Law: why a request is refused. With workers that run the environment
/// type, it is `NoMatchingEnvPackage` exactly when a package is named and
/// none of them has synced it; otherwise, when no worker may take the
/// request, `AllWorkersAtCapacity` (which also covers workers that are
/// draining, degraded or short of resources).
pub proof fn law_refusal_reasons(ws: Seq<WorkerInfo>, req: EpisodeRequest, thr: u64, hb: u64, now: u64, counter: usize)
    ensures
        (pick_spec(ws, req, thr, hb, now, counter) == Err::<int, ScheduleError>(ScheduleError::NoMatchingEnvPackage)) <==> ({
            &&& exists|i: int| 0 <= i < ws.len() && supports_env(#[trigger] ws[i], req.env_type@)
            &&& req.env_package_id@.len() > 0
            &&& forall|i: int| 0 <= i < ws.len() && #[trigger] supports_env(ws[i], req.env_type@) ==> !has_asked_package(ws[i], req)
        }),
        (pick_spec(ws, req, thr, hb, now, counter) == Err::<int, ScheduleError>(ScheduleError::AllWorkersAtCapacity)) <==> ({
            &&& forall|i: int| 0 <= i < ws.len() ==> !eligible_spec(#[trigger] ws[i], req, thr, hb, now)
            &&& exists|i: int| 0 <= i < ws.len() && #[trigger] supports_env(ws[i], req.env_type@) && has_asked_package(ws[i], req)
        }),
{
    law_reserve_picks_an_eligible_worker(ws, req, thr, hb, now, counter);
    lemma_candidates_in_range(ws, req, thr, hb, now, ws.len() as int);
    let c = candidates_spec(ws, req, thr, hb, now);
    if c.len() > 0 {
        let k = (counter as int) % (c.len() as int);
        vstd::arithmetic::div_mod::lemma_mod_bound(counter as int, c.len() as int);
        assert(eligible_spec(ws[c[k]], req, thr, hb, now));
        assert(has_asked_package(ws[c[k]], req) == package_matches_spec(ws[c[k]], req));
    } else {
        lemma_no_candidates(ws, req, thr, hb, now, ws.len() as int);
        assert forall|i: int| 0 <= i < ws.len() implies #[trigger] has_asked_package(ws[i], req) == package_matches_spec(ws[i], req) by {}
    }
}

/// Consecutive counters fall on different positions of a list of two or more.
pub proof fn lemma_next_mod_differs(c: int, len: int)
    requires
        c >= 0,
        len >= 2,
    ensures
        (c + 1) % len != c % len,
{
    vstd::arithmetic::div_mod::lemma_fundamental_div_mod(c, len);
    let q = c / len;
    let r = c % len;
    vstd::arithmetic::div_mod::lemma_mod_bound(c, len);
    if r < len - 1 {
        assert(c + 1 == len * q + (r + 1));
        vstd::arithmetic::div_mod::lemma_mod_multiples_vanish(q, r + 1, len);
        vstd::arithmetic::div_mod::lemma_small_mod((r + 1) as nat, len as nat);
    } else {
        assert(len * (q + 1) == len * q + len) by (nonlinear_arith);
        assert(c + 1 == len * (q + 1) + 0);
        vstd::arithmetic::div_mod::lemma_mod_multiples_vanish(q + 1, 0, len);
        vstd::arithmetic::div_mod::lemma_small_mod(0nat, len as nat);
    }
}

/// The candidate positions come in list order, each once.
proof fn lemma_candidates_increasing(ws: Seq<WorkerInfo>, req: EpisodeRequest, thr: u64, hb: u64, now: u64, n: int)
    requires
        0 <= n <= ws.len(),
    ensures
        forall|a: int, b: int|
            0 <= a < b < eligible_prefix(ws, req, thr, hb, now, n).len() ==> #[trigger] eligible_prefix(ws, req, thr, hb, now, n)[a]
                < #[trigger] eligible_prefix(ws, req, thr, hb, now, n)[b],
    decreases n,
{
    if n > 0 {
        lemma_candidates_increasing(ws, req, thr, hb, now, n - 1);
        lemma_candidates_in_range(ws, req, thr, hb, now, n - 1);
    }
}

/// Law: scheduling is round-robin. With the worker list unchanged and at
/// least two workers that may take the request, two consecutive
/// decisions (the counter moved on by one) choose different workers.
pub proof fn law_consecutive_picks_rotate(ws: Seq<WorkerInfo>, req: EpisodeRequest, thr: u64, hb: u64, now: u64, counter: usize)
    requires
        counter < usize::MAX,
        candidates_spec(ws, req, thr, hb, now).len() >= 2,
    ensures
        pick_spec(ws, req, thr, hb, now, counter) matches Ok(i) && pick_spec(ws, req, thr, hb, now, (counter + 1) as usize) matches Ok(
            j,
        ) && i != j,
{
    let c = candidates_spec(ws, req, thr, hb, now);
    let len = c.len() as int;
    lemma_candidates_increasing(ws, req, thr, hb, now, ws.len() as int);
    lemma_next_mod_differs(counter as int, len);
    vstd::arithmetic::div_mod::lemma_mod_bound(counter as int, len);
    vstd::arithmetic::div_mod::lemma_mod_bound(counter as int + 1, len);
    let a = (counter as int) % len;
    let b = (counter as int + 1) % len;
    if a < b {
        assert(c[a] < c[b]);
    } else {
        assert(c[b] < c[a]);
    }
}

/// With no candidate among the first `n` workers, none of them may take the request.
proof fn lemma_no_candidates(ws: Seq<WorkerInfo>, req: EpisodeRequest, thr: u64, hb: u64, now: u64, n: int)
    requires
        0 <= n <= ws.len(),
        eligible_prefix(ws, req, thr, hb, now, n).len() == 0,
    ensures
        forall|j: int| 0 <= j < n ==> !eligible_spec(#[trigger] ws[j], req, thr, hb, now),
    decreases n,
{
    if n > 0 {
        lemma_no_candidates(ws, req, thr, hb, now, n - 1);
    }
}

/// Law: what `reserve` decides. A chosen worker is not draining, not
/// degraded, runs the environment type, has room, fits the resources and
/// has the package, and gains exactly one reservation. A refusal means that
/// no worker may take the request; it says `NoWorkerAvailable` exactly when
/// there are no workers, and `NoMatchingEnvType` exactly when there are
/// workers but none runs the environment type.
pub proof fn law_reserve_picks_an_eligible_worker(ws: Seq<WorkerInfo>, req: EpisodeRequest, thr: u64, hb: u64, now: u64, counter: usize)
    ensures
        pick_spec(ws, req, thr, hb, now, counter) matches Ok(i) ==> 0 <= i < ws.len()
            && eligible_spec(ws[i], req, thr, hb, now)
            && reserved_once(ws[i]).reserved_load == ws[i].reserved_load + 1,
        pick_spec(ws, req, thr, hb, now, counter) is Err ==> forall|j: int|
            0 <= j < ws.len() ==> !eligible_spec(#[trigger] ws[j], req, thr, hb, now),
        (pick_spec(ws, req, thr, hb, now, counter) == Err::<int, ScheduleError>(ScheduleError::NoWorkerAvailable)) <==> ws.len() == 0,
        (pick_spec(ws, req, thr, hb, now, counter) == Err::<int, ScheduleError>(ScheduleError::NoMatchingEnvType)) <==> (ws.len() > 0
            && forall|j: int| 0 <= j < ws.len() ==> !supports_env(#[trigger] ws[j], req.env_type@)),
{
    law_reserve_stays_within_capacity(ws, req, thr, hb, now, counter);
    lemma_candidates_in_range(ws, req, thr, hb, now, ws.len() as int);
    let c = candidates_spec(ws, req, thr, hb, now);
    if c.len() > 0 {
        let k = (counter as int) % (c.len() as int);
        vstd::arithmetic::div_mod::lemma_mod_bound(counter as int, c.len() as int);
        assert(eligible_spec(ws[c[k]], req, thr, hb, now));
        assert(ws.len() > 0);
        assert(exists|i: int| 0 <= i < ws.len() && supports_env(#[trigger] ws[i], req.env_type@)) by {
            assert(supports_env(ws[c[k]], req.env_type@));
        }
    } else {
        lemma_no_candidates(ws, req, thr, hb, now, ws.len() as int);
    }
}

/// Law: releasing the worker that a reservation has just chosen restores the
/// worker list, provided ids are distinct and the chosen worker's shown load
/// was up to date.
pub proof fn law_release_undoes_reserve(ws: Seq<WorkerInfo>, req: EpisodeRequest, thr: u64, hb: u64, now: u64, counter: usize)
    requires
        distinct_ids(ws),
        forall|j: int| 0 <= j < ws.len() ==> (#[trigger] ws[j]).current_load == effective_load_spec(ws[j]),
    ensures
        pick_spec(ws, req, thr, hb, now, counter) matches Ok(i) ==> release_spec(
            ws.update(i, reserved_once(ws[i])),
            ws[i].worker_id@,
        ) == ws,
{
    law_reserve_stays_within_capacity(ws, req, thr, hb, now, counter);
    lemma_candidates_in_range(ws, req, thr, hb, now, ws.len() as int);
    if let Ok(i) = pick_spec(ws, req, thr, hb, now, counter) {
        let c = candidates_spec(ws, req, thr, hb, now);
        let k = (counter as int) % (c.len() as int);
        vstd::arithmetic::div_mod::lemma_mod_bound(counter as int, c.len() as int);
        assert(eligible_spec(ws[i], req, thr, hb, now));
        let id = ws[i].worker_id@;
        let u = ws.update(i, reserved_once(ws[i]));
        assert forall|j: int| 0 <= j < u.len() && #[trigger] u[j].worker_id@ == id implies j == i by {
            if j != i {
                assert(ws[j].worker_id@ != ws[i].worker_id@);
            }
        }
        assert(u[i].worker_id@ == id);
        let f = first_with_id(u, id);
        let fi = choose|a: int| 0 <= a < u.len() && u[a].worker_id@ == id && forall|j: int| 0 <= j < a ==> #[trigger] u[j].worker_id@ != id;
        assert(0 <= i < u.len() && u[i].worker_id@ == id && forall|j: int| 0 <= j < i ==> #[trigger] u[j].worker_id@ != id);
        assert(f == Some(i));
        assert(released_once(u[i]) == ws[i]);
        let ws2 = u.update(i, released_once(u[i]));
        assert(ws2 =~= ws);
        lemma_kept_all(ws, id, DropRule::DrainedIdle);
    }
}

/// Only the worker at `i` is dropped by the clean-up: it leaves, the rest stay in order.
proof fn lemma_kept_one(ws: Seq<WorkerInfo>, id: Seq<char>, rule: DropRule, i: int)
    requires
        0 <= i < ws.len(),
        drop_rule(ws[i], id, rule),
        forall|j: int| 0 <= j < ws.len() && j != i ==> !drop_rule(#[trigger] ws[j], id, rule),
    ensures
        kept(ws, id, rule) == ws.remove(i),
    decreases ws.len(),
{
    reveal(Seq::filter);
    let d = ws.drop_last();
    if i == ws.len() - 1 {
        assert forall|j: int| 0 <= j < d.len() implies !drop_rule(#[trigger] d[j], id, rule) by {
            assert(d[j] == ws[j]);
        }
        lemma_kept_all(d, id, rule);
        assert(ws.remove(i) =~= d);
    } else {
        assert forall|j: int| 0 <= j < d.len() && j != i implies !drop_rule(#[trigger] d[j], id, rule) by {
            assert(d[j] == ws[j]);
        }
        lemma_kept_one(d, id, rule, i);
        assert(!drop_rule(ws.last(), id, rule));
        assert(ws.remove(i) =~= d.remove(i).push(ws.last()));
    }
}

/// Law: `decrement_load` undoes `increment_load`. With distinct worker ids
/// and shown loads up to date, releasing the worker that was just given one
/// more reservation gives back the list as it was, unless its reservations
/// were already at the `u32` limit; but a worker that is draining and was
/// idle leaves the list, all others staying as they were. Without a worker
/// of that id nothing changes.
pub proof fn law_decrement_undoes_increment(ws: Seq<WorkerInfo>, id: Seq<char>)
    requires
        distinct_ids(ws),
        forall|j: int| 0 <= j < ws.len() ==> (#[trigger] ws[j]).current_load == effective_load_spec(ws[j]),
    ensures
        match first_with_id(ws, id) {
            Some(i) => ws[i].reserved_load < u32::MAX ==> release_spec(ws.update(i, reserved_once(ws[i])), id) == (
                if ws[i].draining && effective_load_spec(ws[i]) == 0 { ws.remove(i) } else { ws }),
            None => release_spec(ws, id) == ws,
        },
{
    match first_with_id(ws, id) {
        Some(i) => {
            if ws[i].reserved_load < u32::MAX && ws[i].draining && effective_load_spec(ws[i]) == 0 {
                let u = ws.update(i, reserved_once(ws[i]));
                assert(ws[i].worker_id@ == id);
                assert forall|j: int| 0 <= j < u.len() && #[trigger] u[j].worker_id@ == id implies j == i by {
                    if j != i {
                        assert(ws[j].worker_id@ != ws[i].worker_id@);
                    }
                }
                assert(u[i].worker_id@ == id);
                assert(0 <= i < u.len() && u[i].worker_id@ == id && forall|j: int| 0 <= j < i ==> #[trigger] u[j].worker_id@ != id);
                assert(first_with_id(u, id) == Some(i));
                assert(released_once(u[i]) == ws[i]);
                let ws2 = u.update(i, released_once(u[i]));
                assert(ws2 =~= ws);
                assert forall|j: int| 0 <= j < ws.len() && j != i implies !drop_rule(#[trigger] ws[j], id, DropRule::DrainedIdle) by {
                    assert(ws[j].worker_id@ != ws[i].worker_id@);
                }
                lemma_kept_one(ws, id, DropRule::DrainedIdle, i);
            }
            if ws[i].reserved_load < u32::MAX && !(ws[i].draining && effective_load_spec(ws[i]) == 0) {
                let u = ws.update(i, reserved_once(ws[i]));
                assert(ws[i].worker_id@ == id);
                assert forall|j: int| 0 <= j < u.len() && #[trigger] u[j].worker_id@ == id implies j == i by {
                    if j != i {
                        assert(ws[j].worker_id@ != ws[i].worker_id@);
                    }
                }
                assert(u[i].worker_id@ == id);
                assert(0 <= i < u.len() && u[i].worker_id@ == id && forall|j: int| 0 <= j < i ==> #[trigger] u[j].worker_id@ != id);
                assert(first_with_id(u, id) == Some(i));
                assert(released_once(u[i]) == ws[i]);
                let ws2 = u.update(i, released_once(u[i]));
                assert(ws2 =~= ws);
                assert forall|j: int| 0 <= j < ws.len() implies !drop_rule(#[trigger] ws[j], id, DropRule::DrainedIdle) by {
                    if j != i {
                        assert(ws[j].worker_id@ != ws[i].worker_id@);
                    }
                }
                lemma_kept_all(ws, id, DropRule::DrainedIdle);
            }
        },
        None => {
            assert forall|j: int| 0 <= j < ws.len() implies !drop_rule(#[trigger] ws[j], id, DropRule::DrainedIdle) by {}
            lemma_kept_all(ws, id, DropRule::DrainedIdle);
        },
    }
}

} // verus!
