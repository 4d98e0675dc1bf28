//! Registry of agents that run SWE agent jobs, grouped into pools.
//!
//! An agent registers with its pool, the agent bridge packages it has synced,
//! its concurrency limit and routing labels; heartbeats keep it live. The
//! registry resolves which pool serves a request, reserves agent slots when
//! agents poll for jobs, and sizes each pool's admission permits to the
//! capacity of its live agents. Times are milliseconds since the Unix epoch.
use crate::admission::{permit_change, permit_change_spec, PermitChange};
use crate::clock::{elapsed_secs, elapsed_secs_between};
use crate::config::concat3;
use crate::string_map::StringMap;
use crate::text::{str_eq, str_lt, text_lt, bytes_lt};
use vstd::prelude::*;

verus! {

broadcast use vstd::string::group_string_axioms;

/// Routing rules for requests that name no pool.
#[derive(Debug, Clone)]
pub struct RoutingConfig {
    /// Benchmark variant to pool, e.g. `pro` to `openhands-pro`.
    pub variant_pool_map: StringMap,
}

impl Default for RoutingConfig {
    fn default() -> (r: Self)
        ensures
            r.variant_pool_map@ == Map::<Seq<char>, Seq<char>>::empty(),
    {
        RoutingConfig { variant_pool_map: StringMap::new() }
    }
}

/// Every selector entry appears, with the same value, among the labels; an
/// empty selector matches any labels.
pub open spec fn labels_match_spec(labels: Map<Seq<char>, Seq<char>>, selector: Map<Seq<char>, Seq<char>>) -> bool {
    forall|k: Seq<char>| #[trigger] selector.contains_key(k) ==> labels.contains_key(k) && labels[k] == selector[k]
}

/// Do the labels satisfy the selector?
pub fn labels_match(labels: &StringMap, selector: &StringMap) -> (b: bool)
    ensures
        b == labels_match_spec(labels@, selector@),
{
    labels.includes(selector)
}

/// An agent bridge package that an agent has synced.
#[derive(Debug)]
pub struct SyncedAgentBridgeInfo {
    pub package_id: String,
    pub version: String,
    pub bundle_digest: String,
}

impl Clone for SyncedAgentBridgeInfo {
    fn clone(&self) -> (c: Self)
        ensures
            c == *self,
    {
        SyncedAgentBridgeInfo {
            package_id: self.package_id.clone(),
            version: self.version.clone(),
            bundle_digest: self.bundle_digest.clone(),
        }
    }
}

/// A registered agent.
#[derive(Debug)]
pub struct AgentInfo {
    pub agent_id: String,
    pub agent_pool_id: String,
    pub synced_agent_bridges: Vec<SyncedAgentBridgeInfo>,
    /// Concurrency limit; 0 counts as 1.
    pub max_concurrent: u32,
    /// Load shown to observers: the larger of reserved and reported load.
    pub current_load: u32,
    pub reserved_load: u32,
    pub reported_load: u32,
    pub endpoint: String,
    /// Time of the last registration or heartbeat.
    pub last_heartbeat_at: u64,
    /// Routing labels such as region or GPU type.
    pub labels: StringMap,
}

/// The agent chosen for a job.
#[derive(Debug)]
pub struct AgentAssignment {
    pub agent_id: String,
    pub agent_pool_id: String,
}

/// A copy of an agent's state for observers.
#[derive(Debug)]
pub struct AgentSnapshot {
    pub agent_id: String,
    pub agent_pool_id: String,
    pub max_concurrent: u32,
    pub current_load: u32,
    pub reserved_load: u32,
    pub reported_load: u32,
    pub stale: bool,
    pub last_heartbeat_secs: u64,
    /// `package_id@version` of each synced bridge.
    pub bridges: Vec<String>,
    pub labels: StringMap,
}

/// Why no agent or pool could be chosen.
#[derive(Debug, Clone, Copy, PartialEq, Eq)]
pub enum AgentSelectError {
    /// No live agent in the pool.
    NoAgentInPool,
    /// Live agents exist but none has synced the requested bridge.
    NoMatchingBridge,
    /// Every matching agent is at its concurrency limit.
    AllAgentsAtCapacity,
}

/// The text of an agent selection error, as it is displayed.
pub open spec fn select_error_text(e: AgentSelectError) -> Seq<char> {
    match e {
        AgentSelectError::NoAgentInPool => "no agent registered in pool"@,
        AgentSelectError::NoMatchingBridge => "no agent has synced the requested agent_bridge"@,
        AgentSelectError::AllAgentsAtCapacity => "all agents at capacity"@,
    }
}

impl AgentSelectError {
    /// The error's message.
    pub fn message(&self) -> (s: &'static str)
        ensures
            s@ == select_error_text(*self),
    {
        match self {
            AgentSelectError::NoAgentInPool => "no agent registered in pool",
            AgentSelectError::NoMatchingBridge => "no agent has synced the requested agent_bridge",
            AgentSelectError::AllAgentsAtCapacity => "all agents at capacity",
        }
    }
}

/// A pool's admission permits must change.
#[derive(Debug)]
pub struct PoolPermitUpdate {
    pub pool_id: String,
    pub change: PermitChange,
}

/// Permits granted so far to a pool.
#[derive(Debug)]
pub struct PoolGrant {
    pub pool_id: String,
    pub granted: u32,
}

// ---------------------------------------------------------------------------
// Rules on one agent
// ---------------------------------------------------------------------------
/// The concurrency limit, 0 counting as 1.
pub open spec fn capacity_of_spec(a: AgentInfo) -> u32 {
    if a.max_concurrent > 0 { a.max_concurrent } else { 1 }
}

/// The larger of reserved and reported load.
pub open spec fn agent_load_spec(a: AgentInfo) -> u32 {
    if a.reserved_load >= a.reported_load { a.reserved_load } else { a.reported_load }
}

/// No heartbeat for longer than the timeout.
pub open spec fn stale_spec(a: AgentInfo, timeout: u64, now: u64) -> bool {
    elapsed_secs(now, a.last_heartbeat_at) > timeout
}

/// Has the agent synced the bridge (any agent matches an empty bridge id;
/// an empty version matches any version)?
pub open spec fn bridge_matches_spec(a: AgentInfo, bid: Seq<char>, bver: Seq<char>) -> bool {
    bid.len() == 0 || exists|i: int| 0 <= i < a.synced_agent_bridges@.len() && #[trigger] a.synced_agent_bridges@[i].package_id@ == bid
        && (bver.len() == 0 || a.synced_agent_bridges@[i].version@ == bver)
}

/// Is the agent in the pool (an empty pool id means any pool)?
pub open spec fn in_pool_spec(a: AgentInfo, pool: Seq<char>) -> bool {
    pool.len() == 0 || a.agent_pool_id@ == pool
}

/// Live and synced with the bridge.
pub open spec fn servable_spec(a: AgentInfo, bid: Seq<char>, bver: Seq<char>, timeout: u64, now: u64) -> bool {
    !stale_spec(a, timeout, now) && bridge_matches_spec(a, bid, bver)
}

/// May the agent take one more job of the pool and bridge?
pub open spec fn can_run_spec(a: AgentInfo, pool: Seq<char>, bid: Seq<char>, bver: Seq<char>, timeout: u64, now: u64) -> bool {
    &&& in_pool_spec(a, pool)
    &&& !stale_spec(a, timeout, now)
    &&& bridge_matches_spec(a, bid, bver)
    &&& agent_load_spec(a) < capacity_of_spec(a)
}

/// `a` with one more reservation (saturating) and its shown load refreshed.
pub open spec fn agent_reserved_once(a: AgentInfo) -> AgentInfo {
    let r = if a.reserved_load == u32::MAX { a.reserved_load } else { (a.reserved_load + 1) as u32 };
    let a2 = AgentInfo { reserved_load: r, ..a };
    AgentInfo { current_load: agent_load_spec(a2), ..a2 }
}

/// `a` with one reservation less (saturating) and its shown load refreshed.
pub open spec fn agent_released_once(a: AgentInfo) -> AgentInfo {
    let r = if a.reserved_load == 0 { 0u32 } else { (a.reserved_load - 1) as u32 };
    let a2 = AgentInfo { reserved_load: r, ..a };
    AgentInfo { current_load: agent_load_spec(a2), ..a2 }
}

/// `a` after a heartbeat at `now` reporting `active_jobs`.
pub open spec fn agent_heartbeat_applied(a: AgentInfo, active_jobs: u32, now: u64) -> AgentInfo {
    let a2 = AgentInfo { last_heartbeat_at: now, reported_load: active_jobs, ..a };
    AgentInfo { current_load: agent_load_spec(a2), ..a2 }
}

/// `a + b`, stopping at `u32::MAX`.
pub open spec fn sat_add(a: u32, b: u32) -> u32 {
    if a + b > u32::MAX { u32::MAX } else { (a + b) as u32 }
}

/// `a - b`, stopping at 0.
pub open spec fn sat_sub(a: u32, b: u32) -> u32 {
    if a >= b { (a - b) as u32 } else { 0 }
}

// ---------------------------------------------------------------------------
// Rules on the agent list
// ---------------------------------------------------------------------------
/// The ids of the stale agents, in order.
pub open spec fn stale_ids(ag: Seq<AgentInfo>, timeout: u64, now: u64) -> Seq<Seq<char>>
    decreases ag.len(),
{
    if ag.len() == 0 {
        Seq::empty()
    } else if stale_spec(ag.last(), timeout, now) {
        stale_ids(ag.drop_last(), timeout, now).push(ag.last().agent_id@)
    } else {
        stale_ids(ag.drop_last(), timeout, now)
    }
}

/// Position of the first agent with the id, if any.
pub open spec fn first_agent(ag: Seq<AgentInfo>, id: Seq<char>) -> Option<int> {
    if exists|i: int| 0 <= i < ag.len() && #[trigger] ag[i].agent_id@ == id {
        Some(choose|i: int| 0 <= i < ag.len() && ag[i].agent_id@ == id && forall|j: int|
            0 <= j < i ==> #[trigger] ag[j].agent_id@ != id)
    } else {
        None
    }
}

/// Total live capacity of the agents of a pool among the first `n` agents
/// (an empty pool id counts every agent when `wildcard` holds).
pub open spec fn live_capacity_prefix(ag: Seq<AgentInfo>, pool: Seq<char>, wildcard: bool, timeout: u64, now: u64, n: int) -> u32
    decreases n,
{
    if n <= 0 {
        0
    } else {
        let rest = live_capacity_prefix(ag, pool, wildcard, timeout, now, n - 1);
        let a = ag[n - 1];
        if ((wildcard && pool.len() == 0) || a.agent_pool_id@ == pool) && !stale_spec(a, timeout, now) {
            sat_add(rest, capacity_of_spec(a))
        } else {
            rest
        }
    }
}

/// Total live capacity of a pool, saturating at `u32::MAX`.
pub open spec fn live_capacity(ag: Seq<AgentInfo>, pool: Seq<char>, wildcard: bool, timeout: u64, now: u64) -> u32 {
    live_capacity_prefix(ag, pool, wildcard, timeout, now, ag.len() as int)
}

/// Free slots of the live agents of a pool among the first `n` agents.
pub open spec fn free_capacity_prefix(ag: Seq<AgentInfo>, pool: Seq<char>, timeout: u64, now: u64, n: int) -> u32
    decreases n,
{
    if n <= 0 {
        0
    } else {
        let rest = free_capacity_prefix(ag, pool, timeout, now, n - 1);
        let a = ag[n - 1];
        if a.agent_pool_id@ == pool && !stale_spec(a, timeout, now) {
            sat_add(rest, sat_sub(capacity_of_spec(a), agent_load_spec(a)))
        } else {
            rest
        }
    }
}

/// Free slots of the live agents of a pool, saturating at `u32::MAX`.
pub open spec fn free_capacity(ag: Seq<AgentInfo>, pool: Seq<char>, timeout: u64, now: u64) -> u32 {
    free_capacity_prefix(ag, pool, timeout, now, ag.len() as int)
}

/// Has the pool a live agent?
pub open spec fn pool_live(ag: Seq<AgentInfo>, pool: Seq<char>, timeout: u64, now: u64) -> bool {
    exists|i: int| 0 <= i < ag.len() && #[trigger] ag[i].agent_pool_id@ == pool && !stale_spec(ag[i], timeout, now)
}

/// Has the pool a live agent with the bridge?
pub open spec fn pool_servable(ag: Seq<AgentInfo>, pool: Seq<char>, bid: Seq<char>, bver: Seq<char>, timeout: u64, now: u64) -> bool {
    exists|i: int| 0 <= i < ag.len() && #[trigger] ag[i].agent_pool_id@ == pool && servable_spec(ag[i], bid, bver, timeout, now)
}

/// Has the pool a live agent with the bridge whose labels match?
pub open spec fn pool_label_servable(ag: Seq<AgentInfo>, pool: Seq<char>, bid: Seq<char>, bver: Seq<char>, timeout: u64, now: u64, sel: Map<Seq<char>, Seq<char>>) -> bool {
    exists|i: int| 0 <= i < ag.len() && #[trigger] ag[i].agent_pool_id@ == pool && servable_spec(ag[i], bid, bver, timeout, now)
        && labels_match_spec(ag[i].labels@, sel)
}

/// The pools left after the variant rule: only the mapped pool if the
/// variant is mapped to a pool that can serve, else every serving pool.
pub open spec fn after_variant(ag: Seq<AgentInfo>, bid: Seq<char>, bver: Seq<char>, timeout: u64, now: u64, variant: Seq<char>, routing: Map<Seq<char>, Seq<char>>, p: Seq<char>) -> bool {
    if variant.len() != 0 && routing.contains_key(variant) && pool_servable(ag, routing[variant], bid, bver, timeout, now) {
        p == routing[variant]
    } else {
        pool_servable(ag, p, bid, bver, timeout, now)
    }
}

/// The pools left after the label rule: those of the remaining pools with a
/// matching agent, if there is one; else the remaining pools unchanged.
pub open spec fn after_labels(ag: Seq<AgentInfo>, bid: Seq<char>, bver: Seq<char>, timeout: u64, now: u64, variant: Seq<char>, routing: Map<Seq<char>, Seq<char>>, sel: Map<Seq<char>, Seq<char>>, p: Seq<char>) -> bool {
    if sel != Map::<Seq<char>, Seq<char>>::empty() && (exists|q: Seq<char>| #[trigger] after_variant(ag, bid, bver, timeout, now, variant, routing, q)
        && pool_label_servable(ag, q, bid, bver, timeout, now, sel)) {
        after_variant(ag, bid, bver, timeout, now, variant, routing, p) && pool_label_servable(ag, p, bid, bver, timeout, now, sel)
    } else {
        after_variant(ag, bid, bver, timeout, now, variant, routing, p)
    }
}

/// `p` beats `q`: more free capacity, or as much and a smaller id.
pub open spec fn pool_beats(ag: Seq<AgentInfo>, timeout: u64, now: u64, p: Seq<char>, q: Seq<char>) -> bool {
    free_capacity(ag, q, timeout, now) < free_capacity(ag, p, timeout, now)
        || (free_capacity(ag, q, timeout, now) == free_capacity(ag, p, timeout, now) && (q == p || text_lt(p, q)))
}

/// The outcome of pool resolution.
pub open spec fn resolve_ok(ag: Seq<AgentInfo>, bid: Seq<char>, bver: Seq<char>, timeout: u64, now: u64, variant: Seq<char>, routing: Map<Seq<char>, Seq<char>>, sel: Map<Seq<char>, Seq<char>>, p: Seq<char>) -> bool {
    after_labels(ag, bid, bver, timeout, now, variant, routing, sel, p) && forall|q: Seq<char>|
        #[trigger] after_labels(ag, bid, bver, timeout, now, variant, routing, sel, q) ==> pool_beats(ag, timeout, now, p, q)
}

/// Is any agent live?
pub open spec fn any_live(ag: Seq<AgentInfo>, timeout: u64, now: u64) -> bool {
    exists|i: int| 0 <= i < ag.len() && !stale_spec(#[trigger] ag[i], timeout, now)
}

/// Positions, in list order, of the first `n` agents that may take a job.
pub open spec fn runnable_prefix(ag: Seq<AgentInfo>, pool: Seq<char>, bid: Seq<char>, bver: Seq<char>, timeout: u64, now: u64, n: int) -> Seq<int>
    decreases n,
{
    if n <= 0 {
        Seq::empty()
    } else {
        let p = runnable_prefix(ag, pool, bid, bver, timeout, now, n - 1);
        if can_run_spec(ag[n - 1], pool, bid, bver, timeout, now) { p.push(n - 1) } else { p }
    }
}

/// The outcome of `pick_agent`: the chosen position or the reason for none.
pub open spec fn pick_agent_spec(ag: Seq<AgentInfo>, pool: Seq<char>, bid: Seq<char>, bver: Seq<char>, timeout: u64, now: u64, counter: usize) -> Result<int, AgentSelectError> {
    let c = runnable_prefix(ag, pool, bid, bver, timeout, now, ag.len() as int);
    if c.len() == 0 {
        if !(exists|i: int| 0 <= i < ag.len() && in_pool_spec(#[trigger] ag[i], pool) && !stale_spec(ag[i], timeout, now)) {
            Err(AgentSelectError::NoAgentInPool)
        } else if !(exists|i: int| 0 <= i < ag.len() && in_pool_spec(#[trigger] ag[i], pool) && !stale_spec(ag[i], timeout, now)
            && bridge_matches_spec(ag[i], bid, bver)) {
            Err(AgentSelectError::NoMatchingBridge)
        } else {
            Err(AgentSelectError::AllAgentsAtCapacity)
        }
    } else {
        Ok(c[(counter as int) % (c.len() as int)])
    }
}

/// Position of the `k`-th agent probed by a round that starts at `start`.
pub open spec fn probe(start: usize, k: int, n: int) -> int {
    (start.wrapping_add(k as usize) as int) % n
}

/// The outcome of the round-robin part of `try_reserve`: the first probed
/// agent that may take the job.
pub open spec fn round_pick(ag: Seq<AgentInfo>, pool: Seq<char>, bid: Seq<char>, bver: Seq<char>, timeout: u64, now: u64, start: usize) -> Option<int> {
    let n = ag.len() as int;
    if exists|k: int| 0 <= k < n && can_run_spec(#[trigger] ag[probe(start, k, n)], pool, bid, bver, timeout, now) {
        let k = choose|k: int| 0 <= k < n && can_run_spec(ag[probe(start, k, n)], pool, bid, bver, timeout, now)
            && forall|j: int| 0 <= j < k ==> !can_run_spec(#[trigger] ag[probe(start, j, n)], pool, bid, bver, timeout, now);
        Some(probe(start, k, n))
    } else {
        None
    }
}

/// Position of the first agent with the id that may take the job.
pub open spec fn preferred_pick(ag: Seq<AgentInfo>, id: Seq<char>, pool: Seq<char>, bid: Seq<char>, bver: Seq<char>, timeout: u64, now: u64) -> Option<int> {
    if exists|i: int| 0 <= i < ag.len() && #[trigger] ag[i].agent_id@ == id && can_run_spec(ag[i], pool, bid, bver, timeout, now) {
        Some(choose|i: int| 0 <= i < ag.len() && ag[i].agent_id@ == id && can_run_spec(ag[i], pool, bid, bver, timeout, now)
            && forall|j: int| 0 <= j < i ==> !(#[trigger] ag[j].agent_id@ == id && can_run_spec(ag[j], pool, bid, bver, timeout, now)))
    } else {
        None
    }
}

/// No two agents share an id.
pub open spec fn distinct_agent_ids(ag: Seq<AgentInfo>) -> bool {
    forall|i: int, j: int| 0 <= i < ag.len() && 0 <= j < ag.len() && i != j ==> #[trigger] ag[i].agent_id@ != #[trigger] ag[j].agent_id@
}

/// The agents other than those with the id, in order.
pub open spec fn without_agent(ag: Seq<AgentInfo>, id: Seq<char>) -> Seq<AgentInfo> {
    ag.filter(|a: AgentInfo| a.agent_id@ != id)
}

/// Position of the first grant record of a pool, if any.
pub open spec fn first_grant(g: Seq<PoolGrant>, pool: Seq<char>) -> Option<int> {
    if exists|i: int| 0 <= i < g.len() && #[trigger] g[i].pool_id@ == pool {
        Some(choose|i: int| 0 <= i < g.len() && g[i].pool_id@ == pool && forall|j: int| 0 <= j < i ==> #[trigger] g[j].pool_id@ != pool)
    } else {
        None
    }
}

/// Permits granted to a pool so far (0 for a pool never seen).
pub open spec fn granted_of(g: Seq<PoolGrant>, pool: Seq<char>) -> u32 {
    match first_grant(g, pool) {
        Some(i) => g[i].granted,
        None => 0,
    }
}

/// If `i` is the first position holding the pool, `first_grant` finds it.
proof fn lemma_first_grant(g: Seq<PoolGrant>, pool: Seq<char>, i: int)
    requires
        0 <= i < g.len(),
        g[i].pool_id@ == pool,
        forall|j: int| 0 <= j < i ==> #[trigger] g[j].pool_id@ != pool,
    ensures
        first_grant(g, pool) == Some(i),
{
    let c = choose|k: int| 0 <= k < g.len() && g[k].pool_id@ == pool && forall|j: int| 0 <= j < k ==> #[trigger] g[j].pool_id@ != pool;
    if c < i {
        assert(g[c].pool_id@ != pool);
    }
    if c > i {
        assert(g[i].pool_id@ != pool);
    }
}

/// Changing or adding a record of one pool leaves the first record of every
/// other pool where it was.
proof fn lemma_first_grant_other(g0: Seq<PoolGrant>, g1: Seq<PoolGrant>, pool: Seq<char>, p: Seq<char>)
    requires
        p != pool,
        g1.len() >= g0.len(),
        forall|j: int| 0 <= j < g0.len() ==> (#[trigger] g1[j]).pool_id@ == g0[j].pool_id@ && (g0[j].pool_id@ != pool ==> g1[j] == g0[j]),
        forall|j: int| g0.len() <= j < g1.len() ==> (#[trigger] g1[j]).pool_id@ == pool,
    ensures
        granted_of(g1, p) == granted_of(g0, p),
{
    if exists|i: int| 0 <= i < g0.len() && #[trigger] g0[i].pool_id@ == p {
        lemma_min_grant(g0, p, g0.len() as int);
        let m = choose|m: int| 0 <= m < g0.len() && g0[m].pool_id@ == p && forall|j: int| 0 <= j < m ==> #[trigger] g0[j].pool_id@ != p;
        lemma_first_grant(g0, p, m);
        assert forall|j: int| 0 <= j < m implies #[trigger] g1[j].pool_id@ != p by {
            assert(g1[j].pool_id@ == g0[j].pool_id@);
        }
        assert(g1[m] == g0[m]);
        lemma_first_grant(g1, p, m);
    } else {
        assert forall|i: int| 0 <= i < g1.len() implies #[trigger] g1[i].pool_id@ != p by {
            if i < g0.len() {
                assert(g1[i].pool_id@ == g0[i].pool_id@);
            }
        }
    }
}

/// Setting the first record of a pool sets the pool's grant and no other.
proof fn lemma_grant_update(g0: Seq<PoolGrant>, g1: Seq<PoolGrant>, pool: Seq<char>, i: int, target: u32)
    requires
        g1 == g0.update(i, PoolGrant { granted: target, ..g0[i] }),
        0 <= i < g0.len(),
        g0[i].pool_id@ == pool,
        forall|j: int| 0 <= j < i ==> #[trigger] g0[j].pool_id@ != pool,
    ensures
        granted_of(g1, pool) == target,
        granted_of(g0, pool) == g0[i].granted,
        forall|p: Seq<char>| p != pool ==> #[trigger] granted_of(g1, p) == granted_of(g0, p),
{
    lemma_first_grant(g0, pool, i);
    lemma_first_grant(g1, pool, i);
    assert forall|p: Seq<char>| p != pool implies #[trigger] granted_of(g1, p) == granted_of(g0, p) by {
        lemma_first_grant_other(g0, g1, pool, p);
    }
}

/// Adding a record for a pool that had none sets that pool's grant only.
proof fn lemma_grant_push(g0: Seq<PoolGrant>, pool: Seq<char>, rec: PoolGrant)
    requires
        rec.pool_id@ == pool,
        forall|j: int| 0 <= j < g0.len() ==> #[trigger] g0[j].pool_id@ != pool,
    ensures
        granted_of(g0.push(rec), pool) == rec.granted,
        granted_of(g0, pool) == 0,
        forall|p: Seq<char>| p != pool ==> #[trigger] granted_of(g0.push(rec), p) == granted_of(g0, p),
{
    let g1 = g0.push(rec);
    assert forall|j: int| 0 <= j < g0.len() implies #[trigger] g1[j].pool_id@ != pool by {
        assert(g1[j] == g0[j]);
    }
    lemma_first_grant(g1, pool, g0.len() as int);
    assert forall|p: Seq<char>| p != pool implies #[trigger] granted_of(g1, p) == granted_of(g0, p) by {
        lemma_first_grant_other(g0, g1, pool, p);
    }
}

/// A pool that has a record has a first one.
proof fn lemma_min_grant(g: Seq<PoolGrant>, pool: Seq<char>, n: int)
    requires
        0 <= n <= g.len(),
        exists|i: int| 0 <= i < n && #[trigger] g[i].pool_id@ == pool,
    ensures
        exists|m: int| 0 <= m < n && g[m].pool_id@ == pool && forall|j: int| 0 <= j < m ==> #[trigger] g[j].pool_id@ != pool,
    decreases n,
{
    if exists|i: int| 0 <= i < n - 1 && #[trigger] g[i].pool_id@ == pool {
        lemma_min_grant(g, pool, n - 1);
        let m = choose|m: int| 0 <= m < n - 1 && g[m].pool_id@ == pool && forall|j: int| 0 <= j < m ==> #[trigger] g[j].pool_id@ != pool;
        assert(0 <= m < n && g[m].pool_id@ == pool && forall|j: int| 0 <= j < m ==> #[trigger] g[j].pool_id@ != pool);
    } else {
        let w = choose|i: int| 0 <= i < n && #[trigger] g[i].pool_id@ == pool;
        assert(w == n - 1);
        assert(0 <= n - 1 < n && g[n - 1].pool_id@ == pool && forall|j: int| 0 <= j < n - 1 ==> #[trigger] g[j].pool_id@ != pool);
    }
}

// ---------------------------------------------------------------------------
// Executable rules
// ---------------------------------------------------------------------------
/// The concurrency limit, 0 counting as 1.
pub fn capacity_of(a: &AgentInfo) -> (c: u32)
    ensures
        c == capacity_of_spec(*a),
{
    if a.max_concurrent > 0 { a.max_concurrent } else { 1 }
}

/// The larger of reserved and reported load.
pub fn agent_load(a: &AgentInfo) -> (l: u32)
    ensures
        l == agent_load_spec(*a),
        l >= a.reserved_load,
        l >= a.reported_load,
        l == a.reserved_load || l == a.reported_load,
{
    if a.reserved_load >= a.reported_load { a.reserved_load } else { a.reported_load }
}

/// Has the agent missed heartbeats for longer than the timeout?
pub fn is_stale(a: &AgentInfo, timeout: u64, now: u64) -> (b: bool)
    ensures
        b == stale_spec(*a, timeout, now),
{
    elapsed_secs_between(now, a.last_heartbeat_at) > timeout
}

/// Has the agent synced the bridge?
pub fn bridge_matches(a: &AgentInfo, bridge_id: &str, bridge_version: &str) -> (b: bool)
    ensures
        b == bridge_matches_spec(*a, bridge_id@, bridge_version@),
{
    if bridge_id.is_empty() {
        return true;
    }
    let mut i: usize = 0;
    while i < a.synced_agent_bridges.len()
        invariant
            i <= a.synced_agent_bridges@.len(),
            bridge_id@.len() != 0,
            forall|j: int| 0 <= j < i ==> !(#[trigger] a.synced_agent_bridges@[j].package_id@ == bridge_id@
                && (bridge_version@.len() == 0 || a.synced_agent_bridges@[j].version@ == bridge_version@)),
        decreases a.synced_agent_bridges@.len() - i,
    {
        let b = &a.synced_agent_bridges[i];
        if str_eq(b.package_id.as_str(), bridge_id) && (bridge_version.is_empty() || str_eq(b.version.as_str(), bridge_version)) {
            return true;
        }
        i = i + 1;
    }
    false
}

fn in_pool(a: &AgentInfo, pool_id: &str) -> (b: bool)
    ensures
        b == in_pool_spec(*a, pool_id@),
{
    pool_id.is_empty() || str_eq(a.agent_pool_id.as_str(), pool_id)
}

fn can_run(a: &AgentInfo, pool_id: &str, bridge_id: &str, bridge_version: &str, timeout: u64, now: u64) -> (b: bool)
    ensures
        b == can_run_spec(*a, pool_id@, bridge_id@, bridge_version@, timeout, now),
{
    in_pool(a, pool_id) && !is_stale(a, timeout, now) && bridge_matches(a, bridge_id, bridge_version)
        && agent_load(a) < capacity_of(a)
}

fn servable(a: &AgentInfo, bridge_id: &str, bridge_version: &str, timeout: u64, now: u64) -> (b: bool)
    ensures
        b == servable_spec(*a, bridge_id@, bridge_version@, timeout, now),
{
    !is_stale(a, timeout, now) && bridge_matches(a, bridge_id, bridge_version)
}

fn sat_add_u32(a: u32, b: u32) -> (c: u32)
    ensures
        c == sat_add(a, b),
{
    a.saturating_add(b)
}

/// Live capacity of a pool (`wildcard`: an empty pool id means every agent).
fn live_capacity_of(ag: &Vec<AgentInfo>, pool_id: &str, wildcard: bool, timeout: u64, now: u64) -> (c: u32)
    ensures
        c == live_capacity(ag@, pool_id@, wildcard, timeout, now),
{
    let mut total: u32 = 0;
    let mut i: usize = 0;
    while i < ag.len()
        invariant
            i <= ag@.len(),
            total == live_capacity_prefix(ag@, pool_id@, wildcard, timeout, now, i as int),
        decreases ag@.len() - i,
    {
        let a = &ag[i];
        if ((wildcard && pool_id.is_empty()) || str_eq(a.agent_pool_id.as_str(), pool_id)) && !is_stale(a, timeout, now) {
            total = sat_add_u32(total, capacity_of(a));
        }
        i = i + 1;
    }
    total
}

/// Free slots of the live agents of a pool.
fn free_capacity_of(ag: &Vec<AgentInfo>, pool_id: &str, timeout: u64, now: u64) -> (c: u32)
    ensures
        c == free_capacity(ag@, pool_id@, timeout, now),
{
    let mut total: u32 = 0;
    let mut i: usize = 0;
    while i < ag.len()
        invariant
            i <= ag@.len(),
            total == free_capacity_prefix(ag@, pool_id@, timeout, now, i as int),
        decreases ag@.len() - i,
    {
        let a = &ag[i];
        if str_eq(a.agent_pool_id.as_str(), pool_id) && !is_stale(a, timeout, now) {
            total = sat_add_u32(total, capacity_of(a).saturating_sub(agent_load(a)));
        }
        i = i + 1;
    }
    total
}

/// Has the pool a live agent with the bridge (and, with a selector, one whose
/// labels match)?
fn pool_has_servable(ag: &Vec<AgentInfo>, pool_id: &str, bridge_id: &str, bridge_version: &str, timeout: u64, now: u64, selector: Option<&StringMap>) -> (b: bool)
    ensures
        selector is None ==> b == pool_servable(ag@, pool_id@, bridge_id@, bridge_version@, timeout, now),
        selector matches Some(sel) ==> b == pool_label_servable(ag@, pool_id@, bridge_id@, bridge_version@, timeout, now, sel@),
{
    let mut i: usize = 0;
    while i < ag.len()
        invariant
            i <= ag@.len(),
            selector is None ==> forall|j: int| 0 <= j < i ==> !(#[trigger] ag@[j].agent_pool_id@ == pool_id@
                && servable_spec(ag@[j], bridge_id@, bridge_version@, timeout, now)),
            selector matches Some(sel) ==> forall|j: int| 0 <= j < i ==> !(#[trigger] ag@[j].agent_pool_id@ == pool_id@
                && servable_spec(ag@[j], bridge_id@, bridge_version@, timeout, now) && labels_match_spec(ag@[j].labels@, sel@)),
        decreases ag@.len() - i,
    {
        let a = &ag[i];
        if str_eq(a.agent_pool_id.as_str(), pool_id) && servable(a, bridge_id, bridge_version, timeout, now) {
            match selector {
                None => return true,
                Some(sel) => {
                    if labels_match(&a.labels, sel) {
                        return true;
                    }
                },
            }
        }
        i = i + 1;
    }
    false
}

/// Does the list hold a string with this content?
pub open spec fn names(v: Seq<String>, p: Seq<char>) -> bool {
    exists|j: int| 0 <= j < v.len() && #[trigger] v[j]@ == p
}

/// No two strings of the list are equal.
pub open spec fn distinct_names(v: Seq<String>) -> bool {
    forall|i: int, j: int| 0 <= i < v.len() && 0 <= j < v.len() && i != j ==> #[trigger] v[i]@ != #[trigger] v[j]@
}

fn contains_name(v: &Vec<String>, p: &str) -> (b: bool)
    ensures
        b == names(v@, p@),
{
    let mut i: usize = 0;
    while i < v.len()
        invariant
            i <= v@.len(),
            forall|j: int| 0 <= j < i ==> #[trigger] v@[j]@ != p@,
        decreases v@.len() - i,
    {
        if str_eq(v[i].as_str(), p) {
            return true;
        }
        i = i + 1;
    }
    false
}

/// `name@version` of each synced bridge.
fn bridge_names(a: &AgentInfo) -> (v: Vec<String>)
    ensures
        v@.len() == a.synced_agent_bridges@.len(),
        forall|i: int| 0 <= i < v@.len() ==> #[trigger] v@[i]@ == a.synced_agent_bridges@[i].package_id@ + "@"@
            + a.synced_agent_bridges@[i].version@,
{
    let mut v: Vec<String> = Vec::new();
    let mut i: usize = 0;
    while i < a.synced_agent_bridges.len()
        invariant
            i <= a.synced_agent_bridges@.len(),
            v@.len() == i,
            forall|j: int| 0 <= j < i ==> #[trigger] v@[j]@ == a.synced_agent_bridges@[j].package_id@ + "@"@
                + a.synced_agent_bridges@[j].version@,
        decreases a.synced_agent_bridges@.len() - i,
    {
        let b = &a.synced_agent_bridges[i];
        v.push(concat3(b.package_id.as_str(), "@", b.version.as_str()));
        i = i + 1;
    }
    v
}

/// The agent registry.
pub struct AgentRegistry {
    agents: Vec<AgentInfo>,
    counter: usize,
    heartbeat_timeout_secs: u64,
    grants: Vec<PoolGrant>,
    routing: RoutingConfig,
}

impl AgentRegistry {
    /// The registered agents, in registration order.
    pub closed spec fn agents_spec(&self) -> Seq<AgentInfo> {
        self.agents@
    }

    /// The round-robin counter.
    pub closed spec fn counter_spec(&self) -> usize {
        self.counter
    }

    /// Seconds without a heartbeat after which an agent is stale.
    pub closed spec fn timeout_spec(&self) -> u64 {
        self.heartbeat_timeout_secs
    }

    /// The variant-to-pool routing table.
    pub closed spec fn routing_spec(&self) -> Map<Seq<char>, Seq<char>> {
        self.routing.variant_pool_map@
    }

    /// Admission permits granted so far to a pool.
    pub closed spec fn granted_spec(&self, pool: Seq<char>) -> u32 {
        granted_of(self.grants@, pool)
    }

    /// A registry without routing rules.
    pub fn new(heartbeat_timeout_secs: u64) -> (r: Self)
        ensures
            r.agents_spec().len() == 0,
            r.counter_spec() == 0,
            r.timeout_spec() == heartbeat_timeout_secs,
            r.routing_spec() == Map::<Seq<char>, Seq<char>>::empty(),
            forall|p: Seq<char>| #[trigger] r.granted_spec(p) == 0,
    {
        Self::with_routing(heartbeat_timeout_secs, RoutingConfig::default())
    }

    /// A registry with the given routing rules.
    pub fn with_routing(heartbeat_timeout_secs: u64, routing: RoutingConfig) -> (r: Self)
        ensures
            r.agents_spec().len() == 0,
            r.counter_spec() == 0,
            r.timeout_spec() == heartbeat_timeout_secs,
            r.routing_spec() == routing.variant_pool_map@,
            forall|p: Seq<char>| #[trigger] r.granted_spec(p) == 0,
    {
        AgentRegistry {
            agents: Vec::new(),
            counter: 0,
            heartbeat_timeout_secs,
            grants: Vec::new(),
            routing,
        }
    }

    /// Position of the first agent with the id.
    fn find_agent(&self, agent_id: &str) -> (r: Option<usize>)
        ensures
            r matches Some(i) ==> i < self.agents@.len() && first_agent(self.agents@, agent_id@) == Some(i as int),
            r is None ==> first_agent(self.agents@, agent_id@) is None,
    {
        let mut i: usize = 0;
        while i < self.agents.len()
            invariant
                i <= self.agents@.len(),
                forall|j: int| 0 <= j < i ==> #[trigger] self.agents@[j].agent_id@ != agent_id@,
            decreases self.agents@.len() - i,
        {
            if str_eq(self.agents[i].agent_id.as_str(), agent_id) {
                proof {
                    let ag = self.agents@;
                    let id = agent_id@;
                    let c = choose|k: int| 0 <= k < ag.len() && ag[k].agent_id@ == id && forall|j: int|
                        0 <= j < k ==> #[trigger] ag[j].agent_id@ != id;
                    assert(0 <= (i as int) < ag.len() && ag[i as int].agent_id@ == id && forall|j: int|
                        0 <= j < i ==> #[trigger] ag[j].agent_id@ != id);
                    if c < i {
                        assert(ag[c].agent_id@ != id);
                    }
                    if c > i {
                        assert(ag[i as int].agent_id@ != id);
                    }
                }
                return Some(i);
            }
            i = i + 1;
        }
        None
    }

    /// Sets the permits granted to a pool to its live capacity at `now` and
    /// says how the pool's permits must change.
    fn sync_pool_admission(&mut self, pool_id: &str, now: u64) -> (u: PoolPermitUpdate)
        ensures
            final(self).agents_spec() == old(self).agents_spec(),
            final(self).counter_spec() == old(self).counter_spec(),
            final(self).timeout_spec() == old(self).timeout_spec(),
            final(self).routing_spec() == old(self).routing_spec(),
            final(self).granted_spec(pool_id@) == live_capacity(old(self).agents_spec(), pool_id@, false, old(self).timeout_spec(), now),
            forall|p: Seq<char>| p != pool_id@ ==> #[trigger] final(self).granted_spec(p) == old(self).granted_spec(p),
            u.pool_id@ == pool_id@,
            u.change == permit_change_spec(old(self).granted_spec(pool_id@), live_capacity(old(self).agents_spec(), pool_id@, false, old(self).timeout_spec(), now)),
    {
        let target = live_capacity_of(&self.agents, pool_id, false, self.heartbeat_timeout_secs, now);
        let ghost g0 = self.grants@;
        let mut i: usize = 0;
        while i < self.grants.len() && !str_eq(self.grants[i].pool_id.as_str(), pool_id)
            invariant
                i <= self.grants@.len(),
                self.grants@ == g0,
                forall|j: int| 0 <= j < i ==> #[trigger] g0[j].pool_id@ != pool_id@,
            decreases self.grants@.len() - i,
        {
            i = i + 1;
        }
        let old_granted;
        if i < self.grants.len() {
            proof {
                lemma_first_grant(g0, pool_id@, i as int);
            }
            let mut g = self.grants.remove(i);
            old_granted = g.granted;
            g.granted = target;
            self.grants.insert(i, g);
            proof {
                assert(self.grants@ =~= g0.update(i as int, PoolGrant { granted: target, ..g0[i as int] }));
                lemma_grant_update(g0, self.grants@, pool_id@, i as int, target);
            }
        } else {
            old_granted = 0;
            proof {
                assert(first_grant(g0, pool_id@) is None);
            }
            let rec = PoolGrant { pool_id: pool_id.to_string(), granted: target };
            self.grants.push(rec);
            proof {
                assert(self.grants@ =~= g0.push(rec));
                lemma_grant_push(g0, pool_id@, rec);
            }
        }
        PoolPermitUpdate { pool_id: pool_id.to_string(), change: permit_change(old_granted, target) }
    }

    /// The permit update that brings a pool's admission permits to the live
    /// capacity of its agents at `now`; a pool never seen starts with none.
    pub fn pool_semaphore(&mut self, pool_id: &str, now: u64) -> (u: PoolPermitUpdate)
        ensures
            final(self).agents_spec() == old(self).agents_spec(),
            final(self).counter_spec() == old(self).counter_spec(),
            final(self).timeout_spec() == old(self).timeout_spec(),
            final(self).routing_spec() == old(self).routing_spec(),
            final(self).granted_spec(pool_id@) == live_capacity(old(self).agents_spec(), pool_id@, false, old(self).timeout_spec(), now),
            forall|p: Seq<char>| p != pool_id@ ==> #[trigger] final(self).granted_spec(p) == old(self).granted_spec(p),
            u.pool_id@ == pool_id@,
            u.change == permit_change_spec(old(self).granted_spec(pool_id@), live_capacity(old(self).agents_spec(), pool_id@, false, old(self).timeout_spec(), now)),
    {
        self.sync_pool_admission(pool_id, now)
    }

    /// Registers an agent, replacing any record with the same id, and
    /// resizes the admission permits of its pool (and of its former pool, if
    /// it moved).
    pub fn register(&mut self, info: AgentInfo, now: u64) -> (updates: Vec<PoolPermitUpdate>)
        ensures
            final(self).agents_spec() == without_agent(old(self).agents_spec(), info.agent_id@).push(info),
            final(self).counter_spec() == old(self).counter_spec(),
            final(self).timeout_spec() == old(self).timeout_spec(),
            final(self).routing_spec() == old(self).routing_spec(),
            final(self).granted_spec(info.agent_pool_id@) == live_capacity(final(self).agents_spec(), info.agent_pool_id@, false, final(self).timeout_spec(), now),
            match first_agent(old(self).agents_spec(), info.agent_id@) {
                Some(k) => {
                    let p_old = old(self).agents_spec()[k].agent_pool_id@;
                    &&& final(self).granted_spec(p_old) == live_capacity(final(self).agents_spec(), p_old, false, final(self).timeout_spec(), now)
                    &&& forall|p: Seq<char>| p != p_old && p != info.agent_pool_id@ ==> #[trigger] final(self).granted_spec(p) == old(self).granted_spec(p)
                    &&& p_old != info.agent_pool_id@ ==> updates@.len() == 2 && updates@[0].pool_id@ == p_old
                        && updates@[0].change == permit_change_spec(old(self).granted_spec(p_old), live_capacity(final(self).agents_spec(), p_old, false, final(self).timeout_spec(), now))
                        && updates@[1].pool_id@ == info.agent_pool_id@
                        && updates@[1].change == permit_change_spec(old(self).granted_spec(info.agent_pool_id@), live_capacity(final(self).agents_spec(), info.agent_pool_id@, false, final(self).timeout_spec(), now))
                    &&& p_old == info.agent_pool_id@ ==> updates@.len() == 1 && updates@[0].pool_id@ == info.agent_pool_id@
                        && updates@[0].change == permit_change_spec(old(self).granted_spec(info.agent_pool_id@), live_capacity(final(self).agents_spec(), info.agent_pool_id@, false, final(self).timeout_spec(), now))
                },
                None => {
                    &&& forall|p: Seq<char>| p != info.agent_pool_id@ ==> #[trigger] final(self).granted_spec(p) == old(self).granted_spec(p)
                    &&& updates@.len() == 1 && updates@[0].pool_id@ == info.agent_pool_id@
                    &&& updates@[0].change == permit_change_spec(old(self).granted_spec(info.agent_pool_id@), live_capacity(final(self).agents_spec(), info.agent_pool_id@, false, final(self).timeout_spec(), now))
                },
            },
    {
        let old_pool: Option<String> = match self.find_agent(info.agent_id.as_str()) {
            Some(k) => Some(self.agents[k].agent_pool_id.clone()),
            None => None,
        };
        let ghost id = info.agent_id@;
        let ghost pool = info.agent_pool_id@;
        let pool_id = info.agent_pool_id.clone();
        let mut ag: Vec<AgentInfo> = Vec::new();
        std::mem::swap(&mut ag, &mut self.agents);
        let mut ag = retain_other_agents(ag, info.agent_id.as_str());
        ag.push(info);
        self.agents = ag;
        let mut updates: Vec<PoolPermitUpdate> = Vec::new();
        let ghost g_before = self.grants@;
        if let Some(p) = old_pool {
            if !str_eq(p.as_str(), pool_id.as_str()) {
                let u = self.sync_pool_admission(p.as_str(), now);
                updates.push(u);
            }
        }
        let u = self.sync_pool_admission(pool_id.as_str(), now);
        updates.push(u);
        updates
    }

    /// Removes an agent and resizes the admission permits of its pool.
    pub fn unregister(&mut self, agent_id: &str, now: u64) -> (update: Option<PoolPermitUpdate>)
        ensures
            final(self).agents_spec() == without_agent(old(self).agents_spec(), agent_id@),
            final(self).counter_spec() == old(self).counter_spec(),
            final(self).timeout_spec() == old(self).timeout_spec(),
            final(self).routing_spec() == old(self).routing_spec(),
            match first_agent(old(self).agents_spec(), agent_id@) {
                Some(k) => {
                    let p_old = old(self).agents_spec()[k].agent_pool_id@;
                    &&& final(self).granted_spec(p_old) == live_capacity(final(self).agents_spec(), p_old, false, final(self).timeout_spec(), now)
                    &&& forall|p: Seq<char>| p != p_old ==> #[trigger] final(self).granted_spec(p) == old(self).granted_spec(p)
                    &&& update matches Some(u) && u.pool_id@ == p_old
                        && u.change == permit_change_spec(old(self).granted_spec(p_old), live_capacity(final(self).agents_spec(), p_old, false, final(self).timeout_spec(), now))
                },
                None => {
                    &&& forall|p: Seq<char>| #[trigger] final(self).granted_spec(p) == old(self).granted_spec(p)
                    &&& update is None
                },
            },
    {
        let old_pool: Option<String> = match self.find_agent(agent_id) {
            Some(k) => Some(self.agents[k].agent_pool_id.clone()),
            None => None,
        };
        let mut ag: Vec<AgentInfo> = Vec::new();
        std::mem::swap(&mut ag, &mut self.agents);
        self.agents = retain_other_agents(ag, agent_id);
        match old_pool {
            Some(p) => Some(self.sync_pool_admission(p.as_str(), now)),
            None => None,
        }
    }

    /// A heartbeat at `now`: refreshes the agent's time and calibrates its
    /// load with the active jobs it reports. `false` for an unknown agent.
    pub fn heartbeat(&mut self, agent_id: &str, active_jobs: u32, now: u64) -> (found: bool)
        ensures
            found == first_agent(old(self).agents_spec(), agent_id@) is Some,
            final(self).agents_spec() == (match first_agent(old(self).agents_spec(), agent_id@) {
                Some(k) => old(self).agents_spec().update(k, agent_heartbeat_applied(old(self).agents_spec()[k], active_jobs, now)),
                None => old(self).agents_spec(),
            }),
            final(self).counter_spec() == old(self).counter_spec(),
            final(self).timeout_spec() == old(self).timeout_spec(),
            final(self).routing_spec() == old(self).routing_spec(),
            forall|p: Seq<char>| #[trigger] final(self).granted_spec(p) == old(self).granted_spec(p),
    {
        match self.find_agent(agent_id) {
            Some(k) => {
                let mut a = self.agents.remove(k);
                a.last_heartbeat_at = now;
                a.reported_load = active_jobs;
                a.current_load = agent_load(&a);
                self.agents.insert(k, a);
                proof {
                    assert(self.agents@ =~= old(self).agents@.update(k as int, agent_heartbeat_applied(old(self).agents@[k as int], active_jobs, now)));
                }
                true
            },
            None => false,
        }
    }

    /// One more reservation on the agent (saturating).
    pub fn increment_load(&mut self, agent_id: &str)
        ensures
            final(self).agents_spec() == (match first_agent(old(self).agents_spec(), agent_id@) {
                Some(k) => old(self).agents_spec().update(k, agent_reserved_once(old(self).agents_spec()[k])),
                None => old(self).agents_spec(),
            }),
            final(self).counter_spec() == old(self).counter_spec(),
            final(self).timeout_spec() == old(self).timeout_spec(),
            final(self).routing_spec() == old(self).routing_spec(),
            forall|p: Seq<char>| #[trigger] final(self).granted_spec(p) == old(self).granted_spec(p),
    {
        if let Some(k) = self.find_agent(agent_id) {
            let mut a = self.agents.remove(k);
            a.reserved_load = a.reserved_load.saturating_add(1);
            a.current_load = agent_load(&a);
            self.agents.insert(k, a);
            proof {
                assert(self.agents@ =~= old(self).agents@.update(k as int, agent_reserved_once(old(self).agents@[k as int])));
            }
        }
    }

    /// One reservation less on the agent (saturating).
    pub fn decrement_load(&mut self, agent_id: &str)
        ensures
            final(self).agents_spec() == (match first_agent(old(self).agents_spec(), agent_id@) {
                Some(k) => old(self).agents_spec().update(k, agent_released_once(old(self).agents_spec()[k])),
                None => old(self).agents_spec(),
            }),
            final(self).counter_spec() == old(self).counter_spec(),
            final(self).timeout_spec() == old(self).timeout_spec(),
            final(self).routing_spec() == old(self).routing_spec(),
            forall|p: Seq<char>| #[trigger] final(self).granted_spec(p) == old(self).granted_spec(p),
    {
        if let Some(k) = self.find_agent(agent_id) {
            let mut a = self.agents.remove(k);
            a.reserved_load = a.reserved_load.saturating_sub(1);
            a.current_load = agent_load(&a);
            self.agents.insert(k, a);
            proof {
                assert(self.agents@ =~= old(self).agents@.update(k as int, agent_released_once(old(self).agents@[k as int])));
            }
        }
    }

    /// Snapshots of all agents at time `now`.
    pub fn snapshot(&self, now: u64) -> (v: Vec<AgentSnapshot>)
        ensures
            v@.len() == self.agents_spec().len(),
            forall|i: int| 0 <= i < v@.len() ==> agent_snapshot_of(#[trigger] v@[i], self.agents_spec()[i], self.timeout_spec(), now),
    {
        let mut v: Vec<AgentSnapshot> = Vec::new();
        let mut i: usize = 0;
        while i < self.agents.len()
            invariant
                i <= self.agents@.len(),
                v@.len() == i,
                forall|j: int| 0 <= j < i ==> agent_snapshot_of(#[trigger] v@[j], self.agents@[j], self.heartbeat_timeout_secs, now),
            decreases self.agents@.len() - i,
        {
            let a = &self.agents[i];
            v.push(AgentSnapshot {
                agent_id: a.agent_id.clone(),
                agent_pool_id: a.agent_pool_id.clone(),
                max_concurrent: capacity_of(a),
                current_load: agent_load(a),
                reserved_load: a.reserved_load,
                reported_load: a.reported_load,
                stale: is_stale(a, self.heartbeat_timeout_secs, now),
                last_heartbeat_secs: elapsed_secs_between(now, a.last_heartbeat_at),
                bridges: bridge_names(a),
                labels: a.labels.clone(),
            });
            i = i + 1;
        }
        v
    }

    /// Total concurrency of the live agents of a pool (of all pools for an
    /// empty pool id), saturating at `u32::MAX`.
    pub fn pool_capacity(&self, pool_id: &str, now: u64) -> (c: u32)
        ensures
            c == live_capacity(self.agents_spec(), pool_id@, true, self.timeout_spec(), now),
    {
        live_capacity_of(&self.agents, pool_id, true, self.heartbeat_timeout_secs, now)
    }

    /// May the agent with this id take one more job of the pool and bridge?
    pub fn can_agent_run(&self, agent_id: &str, pool_id: &str, bridge_id: &str, bridge_version: &str, now: u64) -> (b: bool)
        ensures
            b == exists|i: int| 0 <= i < self.agents_spec().len() && #[trigger] self.agents_spec()[i].agent_id@ == agent_id@
                && can_run_spec(self.agents_spec()[i], pool_id@, bridge_id@, bridge_version@, self.timeout_spec(), now),
    {
        let mut i: usize = 0;
        while i < self.agents.len()
            invariant
                i <= self.agents@.len(),
                forall|j: int| 0 <= j < i ==> !(#[trigger] self.agents@[j].agent_id@ == agent_id@
                    && can_run_spec(self.agents@[j], pool_id@, bridge_id@, bridge_version@, self.heartbeat_timeout_secs, now)),
            decreases self.agents@.len() - i,
        {
            let a = &self.agents[i];
            if str_eq(a.agent_id.as_str(), agent_id) && can_run(a, pool_id, bridge_id, bridge_version, self.heartbeat_timeout_secs, now) {
                proof {
                    assert(self.agents_spec()[i as int].agent_id@ == agent_id@);
                }
                return true;
            }
            i = i + 1;
        }
        false
    }

    /// Reserves a slot on the agent with this id if it may take the job.
    pub fn try_reserve_exact_agent(&mut self, agent_id: &str, pool_id: &str, bridge_id: &str, bridge_version: &str, now: u64) -> (b: bool)
        ensures
            match first_agent(old(self).agents_spec(), agent_id@) {
                Some(k) => {
                    let a = old(self).agents_spec()[k];
                    &&& b == can_run_spec(a, pool_id@, bridge_id@, bridge_version@, old(self).timeout_spec(), now)
                    &&& b ==> final(self).agents_spec() == old(self).agents_spec().update(k, agent_reserved_once(a))
                    &&& !b ==> final(self).agents_spec() == old(self).agents_spec()
                },
                None => !b && final(self).agents_spec() == old(self).agents_spec(),
            },
            final(self).counter_spec() == old(self).counter_spec(),
            final(self).timeout_spec() == old(self).timeout_spec(),
            final(self).routing_spec() == old(self).routing_spec(),
            forall|p: Seq<char>| #[trigger] final(self).granted_spec(p) == old(self).granted_spec(p),
    {
        let k = match self.find_agent(agent_id) {
            Some(k) => k,
            None => return false,
        };
        if can_run(&self.agents[k], pool_id, bridge_id, bridge_version, self.heartbeat_timeout_secs, now) {
            let mut a = self.agents.remove(k);
            a.reserved_load = a.reserved_load.saturating_add(1);
            a.current_load = agent_load(&a);
            self.agents.insert(k, a);
            proof {
                assert(self.agents@ =~= old(self).agents@.update(k as int, agent_reserved_once(old(self).agents@[k as int])));
            }
            true
        } else {
            false
        }
    }

    /// Chooses an agent for a job of the pool (any pool if empty) and
    /// bridge at time `now`, taking turns among the agents that may take it.
    /// Nothing is reserved; the counter moves on when an agent is chosen.
    pub fn pick_agent(&mut self, pool_id: &str, bridge_id: &str, bridge_version: &str, now: u64) -> (r: Result<AgentAssignment, AgentSelectError>)
        ensures
            final(self).agents_spec() == old(self).agents_spec(),
            final(self).timeout_spec() == old(self).timeout_spec(),
            final(self).routing_spec() == old(self).routing_spec(),
            forall|p: Seq<char>| #[trigger] final(self).granted_spec(p) == old(self).granted_spec(p),
            match pick_agent_spec(old(self).agents_spec(), pool_id@, bridge_id@, bridge_version@, old(self).timeout_spec(), now, old(self).counter_spec()) {
                Ok(i) => r matches Ok(a) && a.agent_id@ == old(self).agents_spec()[i].agent_id@
                    && a.agent_pool_id@ == old(self).agents_spec()[i].agent_pool_id@
                    && final(self).counter_spec() == old(self).counter_spec().wrapping_add(1),
                Err(e) => r == Err::<AgentAssignment, AgentSelectError>(e) && final(self).counter_spec() == old(self).counter_spec(),
            },
    {
        let ag = &self.agents;
        let t = self.heartbeat_timeout_secs;
        let mut c: Vec<usize> = Vec::new();
        let mut any_in_pool = false;
        let mut any_bridge = false;
        let mut i: usize = 0;
        while i < ag.len()
            invariant
                i <= ag@.len(),
                c@.len() == runnable_prefix(ag@, pool_id@, bridge_id@, bridge_version@, t, now, i as int).len(),
                forall|k: int| 0 <= k < c@.len() ==> c@[k] as int == #[trigger] runnable_prefix(ag@, pool_id@, bridge_id@, bridge_version@, t, now, i as int)[k],
                any_in_pool == exists|j: int| 0 <= j < i && in_pool_spec(#[trigger] ag@[j], pool_id@) && !stale_spec(ag@[j], t, now),
                any_bridge == exists|j: int| 0 <= j < i && in_pool_spec(#[trigger] ag@[j], pool_id@) && !stale_spec(ag@[j], t, now)
                    && bridge_matches_spec(ag@[j], bridge_id@, bridge_version@),
            decreases ag@.len() - i,
        {
            let a = &ag[i];
            if in_pool(a, pool_id) && !is_stale(a, t, now) {
                any_in_pool = true;
                if bridge_matches(a, bridge_id, bridge_version) {
                    any_bridge = true;
                }
            }
            if can_run(a, pool_id, bridge_id, bridge_version, t, now) {
                c.push(i);
            }
            i = i + 1;
        }
        if c.len() == 0 {
            if !any_in_pool {
                return Err(AgentSelectError::NoAgentInPool);
            }
            if !any_bridge {
                return Err(AgentSelectError::NoMatchingBridge);
            }
            return Err(AgentSelectError::AllAgentsAtCapacity);
        }
        let k = self.counter % c.len();
        self.counter = self.counter.wrapping_add(1);
        let idx = c[k];
        proof {
            lemma_runnable_in_range(self.agents@, pool_id@, bridge_id@, bridge_version@, t, now, self.agents@.len() as int);
        }
        let a = &self.agents[idx];
        Ok(AgentAssignment { agent_id: a.agent_id.clone(), agent_pool_id: a.agent_pool_id.clone() })
    }

    /// Reserves a slot for an agent that polls for a job of the pool and
    /// bridge at time `now`, choosing and reserving in one step. The
    /// preferred agent (the poller) goes first if it may take the job;
    /// otherwise the agents are probed in turn from the counter. Returns the
    /// chosen agent's id, or `None` when no agent may take the job.
    #[verifier::spinoff_prover]
    #[verifier::rlimit(40)]
    pub fn try_reserve(&mut self, pool_id: &str, bridge_id: &str, bridge_version: &str, preferred_agent_id: &str, now: u64) -> (r: Option<String>)
        ensures
            final(self).timeout_spec() == old(self).timeout_spec(),
            final(self).routing_spec() == old(self).routing_spec(),
            forall|p: Seq<char>| #[trigger] final(self).granted_spec(p) == old(self).granted_spec(p),
            try_reserve_outcome(old(self).agents_spec(), final(self).agents_spec(), old(self).counter_spec(), final(self).counter_spec(),
                pool_id@, bridge_id@, bridge_version@, preferred_agent_id@, old(self).timeout_spec(), now, r),
    {
        let n = self.agents.len();
        if n == 0 {
            return None;
        }
        let t = self.heartbeat_timeout_secs;
        if !preferred_agent_id.is_empty() {
            let mut i: usize = 0;
            while i < n && !(str_eq(self.agents[i].agent_id.as_str(), preferred_agent_id)
                && can_run(&self.agents[i], pool_id, bridge_id, bridge_version, t, now))
                invariant
                    n == self.agents@.len(),
                    i <= n,
                    t == self.heartbeat_timeout_secs,
                    forall|j: int| 0 <= j < i ==> !(#[trigger] self.agents@[j].agent_id@ == preferred_agent_id@
                        && can_run_spec(self.agents@[j], pool_id@, bridge_id@, bridge_version@, t, now)),
                decreases n - i,
            {
                i = i + 1;
            }
            if i < n {
                proof {
                    let ag = self.agents@;
                    let c = choose|k: int| 0 <= k < ag.len() && ag[k].agent_id@ == preferred_agent_id@ && can_run_spec(ag[k], pool_id@, bridge_id@, bridge_version@, t, now)
                        && forall|j: int| 0 <= j < k ==> !(#[trigger] ag[j].agent_id@ == preferred_agent_id@ && can_run_spec(ag[j], pool_id@, bridge_id@, bridge_version@, t, now));
                    assert(0 <= (i as int) < ag.len() && ag[i as int].agent_id@ == preferred_agent_id@ && can_run_spec(ag[i as int], pool_id@, bridge_id@, bridge_version@, t, now)
                        && forall|j: int| 0 <= j < i ==> !(#[trigger] ag[j].agent_id@ == preferred_agent_id@ && can_run_spec(ag[j], pool_id@, bridge_id@, bridge_version@, t, now)));
                    if c < i {
                        assert(!(ag[c].agent_id@ == preferred_agent_id@ && can_run_spec(ag[c], pool_id@, bridge_id@, bridge_version@, t, now)));
                    }
                    if c > i {
                        assert(!(ag[i as int].agent_id@ == preferred_agent_id@ && can_run_spec(ag[i as int], pool_id@, bridge_id@, bridge_version@, t, now)));
                    }
                    assert(preferred_pick(ag, preferred_agent_id@, pool_id@, bridge_id@, bridge_version@, t, now) == Some(i as int));
                }
                let mut a = self.agents.remove(i);
                a.reserved_load = a.reserved_load.saturating_add(1);
                a.current_load = agent_load(&a);
                let id = a.agent_id.clone();
                self.agents.insert(i, a);
                proof {
                    assert(self.agents@ =~= old(self).agents@.update(i as int, agent_reserved_once(old(self).agents@[i as int])));
                }
                return Some(id);
            }
            proof {
                assert(preferred_pick(self.agents@, preferred_agent_id@, pool_id@, bridge_id@, bridge_version@, t, now) is None);
            }
        }
        let start = self.counter;
        self.counter = self.counter.wrapping_add(1);
        let mut k: usize = 0;
        while k < n && !can_run(&self.agents[start.wrapping_add(k) % n], pool_id, bridge_id, bridge_version, t, now)
            invariant
                n == self.agents@.len(),
                n > 0,
                k <= n,
                t == self.heartbeat_timeout_secs,
                self.agents@ == old(self).agents@,
                forall|j: int| 0 <= j < k ==> !can_run_spec(#[trigger] self.agents@[probe(start, j, n as int)], pool_id@, bridge_id@, bridge_version@, t, now),
            decreases n - k,
        {
            k = k + 1;
        }
        if k == n {
            proof {
                assert(round_pick(self.agents@, pool_id@, bridge_id@, bridge_version@, t, now, start) is None);
            }
            return None;
        }
        let idx = start.wrapping_add(k) % n;
        proof {
            let ag = self.agents@;
            let nn = n as int;
            assert(idx as int == probe(start, k as int, nn));
            let c = choose|m: int| 0 <= m < nn && can_run_spec(ag[probe(start, m, nn)], pool_id@, bridge_id@, bridge_version@, t, now)
                && forall|j: int| 0 <= j < m ==> !can_run_spec(#[trigger] ag[probe(start, j, nn)], pool_id@, bridge_id@, bridge_version@, t, now);
            assert(0 <= (k as int) < nn && can_run_spec(ag[probe(start, k as int, nn)], pool_id@, bridge_id@, bridge_version@, t, now)
                && forall|j: int| 0 <= j < k ==> !can_run_spec(#[trigger] ag[probe(start, j, nn)], pool_id@, bridge_id@, bridge_version@, t, now));
            if c < k {
                assert(!can_run_spec(ag[probe(start, c, nn)], pool_id@, bridge_id@, bridge_version@, t, now));
            }
            if c > k {
                assert(!can_run_spec(ag[probe(start, k as int, nn)], pool_id@, bridge_id@, bridge_version@, t, now));
            }
            assert(round_pick(ag, pool_id@, bridge_id@, bridge_version@, t, now, start) == Some(idx as int));
        }
        let mut a = self.agents.remove(idx);
        a.reserved_load = a.reserved_load.saturating_add(1);
        a.current_load = agent_load(&a);
        let id = a.agent_id.clone();
        self.agents.insert(idx, a);
        proof {
            assert(self.agents@ =~= old(self).agents@.update(idx as int, agent_reserved_once(old(self).agents@[idx as int])));
        }
        Some(id)
    }

    /// Resolves the pool that serves a request, so that admission, the job
    /// queue and polling agents agree on it. Real-time capacity is left to
    /// admission; this only decides which pool can serve and picks one:
    /// 1. an explicit pool is a hard constraint: it must have a live agent
    ///    with the bridge;
    /// 2. a benchmark variant mapped to a pool that can serve narrows the
    ///    choice to that pool;
    /// 3. a label selector narrows it to the pools with a matching agent, if
    ///    there is one (else it is ignored);
    /// 4. among the remaining pools the one with most free slots wins, the
    ///    smaller id on a tie.
    pub fn resolve_pool_id(&self, spec_pool: &str, bridge_id: &str, bridge_version: &str, benchmark_variant: &str, selector: &StringMap, now: u64) -> (r: Result<String, AgentSelectError>)
        ensures
            spec_pool@.len() != 0 ==> match r {
                Ok(p) => p@ == spec_pool@ && pool_servable(self.agents_spec(), spec_pool@, bridge_id@, bridge_version@, self.timeout_spec(), now),
                Err(e) => (e == AgentSelectError::NoAgentInPool && !pool_live(self.agents_spec(), spec_pool@, self.timeout_spec(), now))
                    || (e == AgentSelectError::NoMatchingBridge && pool_live(self.agents_spec(), spec_pool@, self.timeout_spec(), now)
                        && !pool_servable(self.agents_spec(), spec_pool@, bridge_id@, bridge_version@, self.timeout_spec(), now)),
            },
            spec_pool@.len() == 0 ==> match r {
                Ok(p) => resolve_ok(self.agents_spec(), bridge_id@, bridge_version@, self.timeout_spec(), now, benchmark_variant@, self.routing_spec(), selector@, p@),
                Err(e) => (e == AgentSelectError::NoAgentInPool && !any_live(self.agents_spec(), self.timeout_spec(), now))
                    || (e == AgentSelectError::NoMatchingBridge && any_live(self.agents_spec(), self.timeout_spec(), now)
                        && forall|p: Seq<char>| !#[trigger] pool_servable(self.agents_spec(), p, bridge_id@, bridge_version@, self.timeout_spec(), now)),
            },
    {
        let ag = &self.agents;
        let t = self.heartbeat_timeout_secs;
        if !spec_pool.is_empty() {
            let mut live = false;
            let mut i: usize = 0;
            while i < ag.len()
                invariant
                    i <= ag@.len(),
                    live == exists|j: int| 0 <= j < i && #[trigger] ag@[j].agent_pool_id@ == spec_pool@ && !stale_spec(ag@[j], t, now),
                decreases ag@.len() - i,
            {
                if str_eq(ag[i].agent_pool_id.as_str(), spec_pool) && !is_stale(&ag[i], t, now) {
                    live = true;
                }
                i = i + 1;
            }
            if !live {
                return Err(AgentSelectError::NoAgentInPool);
            }
            if pool_has_servable(ag, spec_pool, bridge_id, bridge_version, t, now, None) {
                return Ok(spec_pool.to_string());
            }
            return Err(AgentSelectError::NoMatchingBridge);
        }
        // Any live agent at all?
        let mut live = false;
        let mut i: usize = 0;
        while i < ag.len()
            invariant
                i <= ag@.len(),
                live == exists|j: int| 0 <= j < i && !stale_spec(#[trigger] ag@[j], t, now),
            decreases ag@.len() - i,
        {
            if !is_stale(&ag[i], t, now) {
                live = true;
            }
            i = i + 1;
        }
        if !live {
            return Err(AgentSelectError::NoAgentInPool);
        }
        // Pools that can serve: a live agent with the bridge.
        let mut cands: Vec<String> = Vec::new();
        let mut i: usize = 0;
        while i < ag.len()
            invariant
                i <= ag@.len(),
                distinct_names(cands@),
                forall|p: Seq<char>| #[trigger] names(cands@, p) <==> exists|j: int| 0 <= j < i && #[trigger] ag@[j].agent_pool_id@ == p
                    && servable_spec(ag@[j], bridge_id@, bridge_version@, t, now),
            decreases ag@.len() - i,
        {
            let a = &ag[i];
            if servable(a, bridge_id, bridge_version, t, now) && !contains_name(&cands, a.agent_pool_id.as_str()) {
                let ghost before = cands@;
                cands.push(a.agent_pool_id.clone());
                proof {
                    assert forall|p: Seq<char>| #[trigger] names(cands@, p) <==> (names(before, p) || p == a.agent_pool_id@) by {
                        if names(cands@, p) {
                            let j = choose|j: int| 0 <= j < cands@.len() && cands@[j]@ == p;
                            if j < before.len() {
                                assert(before[j]@ == p);
                            }
                        }
                        if names(before, p) {
                            let j = choose|j: int| 0 <= j < before.len() && before[j]@ == p;
                            assert(cands@[j]@ == p);
                        }
                        if p == a.agent_pool_id@ {
                            assert(cands@[before.len() as int]@ == p);
                        }
                    }
                    assert forall|x: int, y: int| 0 <= x < cands@.len() && 0 <= y < cands@.len() && x != y implies #[trigger] cands@[x]@ != #[trigger] cands@[y]@ by {
                        if x == before.len() {
                            assert(cands@[y] == before[y]);
                        } else if y == before.len() {
                            assert(cands@[x] == before[x]);
                        } else {
                            assert(cands@[x] == before[x] && cands@[y] == before[y]);
                        }
                    }
                }
            }
            i = i + 1;
        }
        proof {
            assert forall|p: Seq<char>| #[trigger] names(cands@, p) <==> pool_servable(ag@, p, bridge_id@, bridge_version@, t, now) by {
                if pool_servable(ag@, p, bridge_id@, bridge_version@, t, now) {
                    let j = choose|j: int| 0 <= j < ag@.len() && #[trigger] ag@[j].agent_pool_id@ == p && servable_spec(ag@[j], bridge_id@, bridge_version@, t, now);
                    assert(exists|j: int| 0 <= j < i && #[trigger] ag@[j].agent_pool_id@ == p && servable_spec(ag@[j], bridge_id@, bridge_version@, t, now));
                }
            }
        }
        if cands.len() == 0 {
            proof {
                assert forall|p: Seq<char>| !#[trigger] pool_servable(ag@, p, bridge_id@, bridge_version@, t, now) by {
                    if pool_servable(ag@, p, bridge_id@, bridge_version@, t, now) {
                        assert(names(cands@, p));
                    }
                }
            }
            return Err(AgentSelectError::NoMatchingBridge);
        }
        // Variant routing.
        let ghost routing = self.routing.variant_pool_map@;
        let ghost variant = benchmark_variant@;
        let ghost c0 = cands@;
        if !benchmark_variant.is_empty() {
            match self.routing.variant_pool_map.get(benchmark_variant) {
                Some(target) => {
                    if contains_name(&cands, target.as_str()) {
                        let mut only: Vec<String> = Vec::new();
                        only.push(target.clone());
                        cands = only;
                        proof {
                            assert(pool_servable(ag@, routing[variant], bridge_id@, bridge_version@, t, now));
                            assert forall|p: Seq<char>| #[trigger] names(cands@, p) <==> after_variant(ag@, bridge_id@, bridge_version@, t, now, variant, routing, p) by {
                                if names(cands@, p) {
                                    assert(cands@[0]@ == p);
                                }
                                if p == routing[variant] {
                                    assert(cands@[0]@ == p);
                                }
                            }
                        }
                    } else {
                        proof {
                            assert(!pool_servable(ag@, routing[variant], bridge_id@, bridge_version@, t, now));
                        }
                    }
                },
                None => {},
            }
        }
        proof {
            assert forall|p: Seq<char>| #[trigger] names(cands@, p) <==> after_variant(ag@, bridge_id@, bridge_version@, t, now, variant, routing, p) by {
                if cands@ == c0 {
                    assert(names(c0, p) <==> pool_servable(ag@, p, bridge_id@, bridge_version@, t, now));
                }
            }
            assert(distinct_names(cands@));
        }
        // Label affinity.
        if !selector.is_empty() {
            let mut matched: Vec<String> = Vec::new();
            let mut j: usize = 0;
            while j < cands.len()
                invariant
                    j <= cands@.len(),
                    distinct_names(cands@),
                    distinct_names(matched@),
                    forall|p: Seq<char>| #[trigger] names(matched@, p) <==> exists|x: int| 0 <= x < j && #[trigger] cands@[x]@ == p
                        && pool_label_servable(ag@, p, bridge_id@, bridge_version@, t, now, selector@),
                decreases cands@.len() - j,
            {
                if pool_has_servable(ag, cands[j].as_str(), bridge_id, bridge_version, t, now, Some(selector)) {
                    let ghost before = matched@;
                    matched.push(cands[j].clone());
                    proof {
                        let c = cands@[j as int]@;
                        assert forall|p: Seq<char>| #[trigger] names(matched@, p) <==> (names(before, p) || p == c) by {
                            if names(matched@, p) {
                                let x = choose|x: int| 0 <= x < matched@.len() && matched@[x]@ == p;
                                if x < before.len() {
                                    assert(before[x]@ == p);
                                }
                            }
                            if names(before, p) {
                                let x = choose|x: int| 0 <= x < before.len() && before[x]@ == p;
                                assert(matched@[x]@ == p);
                            }
                            if p == c {
                                assert(matched@[before.len() as int]@ == p);
                            }
                        }
                        assert(!names(before, c)) by {
                            if names(before, c) {
                                let x = choose|x: int| 0 <= x < j && #[trigger] cands@[x]@ == c
                                    && pool_label_servable(ag@, c, bridge_id@, bridge_version@, t, now, selector@);
                                assert(cands@[x]@ != cands@[j as int]@);
                            }
                        }
                        assert forall|x: int, y: int| 0 <= x < matched@.len() && 0 <= y < matched@.len() && x != y implies #[trigger] matched@[x]@ != #[trigger] matched@[y]@ by {
                            if x == before.len() {
                                assert(matched@[y] == before[y]);
                                assert(names(before, before[y]@));
                            } else if y == before.len() {
                                assert(matched@[x] == before[x]);
                                assert(names(before, before[x]@));
                            } else {
                                assert(matched@[x] == before[x] && matched@[y] == before[y]);
                            }
                        }
                    }
                }
                j = j + 1;
            }
            proof {
                assert forall|p: Seq<char>| #[trigger] names(matched@, p) <==> (after_variant(ag@, bridge_id@, bridge_version@, t, now, variant, routing, p)
                    && pool_label_servable(ag@, p, bridge_id@, bridge_version@, t, now, selector@)) by {
                    if after_variant(ag@, bridge_id@, bridge_version@, t, now, variant, routing, p) && pool_label_servable(ag@, p, bridge_id@, bridge_version@, t, now, selector@) {
                        assert(names(cands@, p));
                        let x = choose|x: int| 0 <= x < cands@.len() && cands@[x]@ == p;
                        assert(exists|x: int| 0 <= x < j && #[trigger] cands@[x]@ == p
                            && pool_label_servable(ag@, p, bridge_id@, bridge_version@, t, now, selector@));
                    }
                }
            }
            if matched.len() > 0 {
                proof {
                    assert(names(matched@, matched@[0]@));
                }
                cands = matched;
            } else {
                proof {
                    assert forall|q: Seq<char>| !(#[trigger] after_variant(ag@, bridge_id@, bridge_version@, t, now, variant, routing, q)
                        && pool_label_servable(ag@, q, bridge_id@, bridge_version@, t, now, selector@)) by {
                        if after_variant(ag@, bridge_id@, bridge_version@, t, now, variant, routing, q)
                            && pool_label_servable(ag@, q, bridge_id@, bridge_version@, t, now, selector@) {
                            assert(names(matched@, q));
                        }
                    }
                }
            }
        }
        proof {
            assert forall|p: Seq<char>| #[trigger] names(cands@, p) <==> after_labels(ag@, bridge_id@, bridge_version@, t, now, variant, routing, selector@, p) by {
            }
        }
        // Most free slots; the smaller id on a tie.
        let mut best: usize = 0;
        let mut best_free = free_capacity_of(ag, cands[0].as_str(), t, now);
        let mut j: usize = 1;
        while j < cands.len()
            invariant
                1 <= j <= cands@.len(),
                best < j,
                distinct_names(cands@),
                best_free == free_capacity(ag@, cands@[best as int]@, t, now),
                forall|x: int| 0 <= x < j ==> pool_beats(ag@, t, now, cands@[best as int]@, #[trigger] cands@[x]@),
            decreases cands@.len() - j,
        {
            let f = free_capacity_of(ag, cands[j].as_str(), t, now);
            let lt = str_lt(cands[j].as_str(), cands[best].as_str());
            proof {
                let c = cands@[j as int]@;
                let b = cands@[best as int]@;
                assert(c != b);
                assert forall|x: int| 0 <= x < j implies pool_beats(ag@, t, now, b, #[trigger] cands@[x]@) by {}
                crate::text::lemma_text_lt_order(c, b, c);
                assert forall|x: int| 0 <= x < j && (f > best_free || (f == best_free && lt)) implies pool_beats(ag@, t, now, c, #[trigger] cands@[x]@) by {
                    let q = cands@[x]@;
                    crate::text::lemma_text_lt_order(c, b, q);
                }
            }
            if f > best_free || (f == best_free && lt) {
                best = j;
                best_free = f;
            }
            j = j + 1;
        }
        proof {
            let b = cands@[best as int]@;
            assert(names(cands@, b));
            assert forall|q: Seq<char>| #[trigger] after_labels(ag@, bridge_id@, bridge_version@, t, now, variant, routing, selector@, q) implies pool_beats(ag@, t, now, b, q) by {
                assert(names(cands@, q));
                let x = choose|x: int| 0 <= x < cands@.len() && cands@[x]@ == q;
                assert(pool_beats(ag@, t, now, b, cands@[x]@));
            }
        }
        Ok(cands[best].clone())
    }

    /// May the agent registered under this id take one more job of the pool
    /// and bridge at `now`?
    pub fn agent_can_run(&self, agent_id: &str, pool_id: &str, bridge_id: &str, bridge_version: &str, now: u64) -> (b: bool)
        ensures
            b == (match first_agent(self.agents_spec(), agent_id@) {
                Some(k) => can_run_spec(self.agents_spec()[k], pool_id@, bridge_id@, bridge_version@, self.timeout_spec(), now),
                None => false,
            }),
    {
        match self.find_agent(agent_id) {
            Some(k) => can_run(&self.agents[k], pool_id, bridge_id, bridge_version, self.heartbeat_timeout_secs, now),
            None => false,
        }
    }

    /// Is an agent with this id registered?
    pub fn is_registered(&self, agent_id: &str) -> (b: bool)
        ensures
            b == (first_agent(self.agents_spec(), agent_id@) is Some),
    {
        let mut i: usize = 0;
        while i < self.agents.len()
            invariant
                i <= self.agents@.len(),
                forall|j: int| 0 <= j < i ==> #[trigger] self.agents@[j].agent_id@ != agent_id@,
            decreases self.agents@.len() - i,
        {
            if str_eq(self.agents[i].agent_id.as_str(), agent_id) {
                proof {
                    assert(self.agents_spec()[i as int].agent_id@ == agent_id@);
                }
                return true;
            }
            i = i + 1;
        }
        false
    }

    /// The ids of the agents without a heartbeat for longer than the timeout
    /// at `now`, in registration order.
    pub fn stale_agent_ids(&self, now: u64) -> (v: Vec<String>)
        ensures
            v@.map_values(|s: String| s@) == stale_ids(self.agents_spec(), self.timeout_spec(), now),
    {
        let mut out: Vec<String> = Vec::new();
        let mut j: usize = 0;
        while j < self.agents.len()
            invariant
                j <= self.agents@.len(),
                out@.map_values(|s: String| s@) == stale_ids(self.agents@.take(j as int), self.heartbeat_timeout_secs, now),
            decreases self.agents@.len() - j,
        {
            proof {
                assert(self.agents@.take(j + 1).drop_last() =~= self.agents@.take(j as int));
                assert(self.agents@.take(j + 1).last() == self.agents@[j as int]);
            }
            let a = &self.agents[j];
            if elapsed_secs_between(now, a.last_heartbeat_at) > self.heartbeat_timeout_secs {
                let ghost before = out@;
                out.push(a.agent_id.clone());
                proof {
                    assert(out@.map_values(|s: String| s@) =~= before.map_values(|s: String| s@).push(a.agent_id@));
                }
            }
            j = j + 1;
        }
        proof {
            assert(self.agents@.take(self.agents@.len() as int) =~= self.agents@);
        }
        out
    }

    /// Number of registered agents.
    pub fn agent_count(&self) -> (n: usize)
        ensures
            n == self.agents_spec().len(),
    {
        self.agents.len()
    }
}

/// A snapshot of agent `a` at time `now`.
pub open spec fn agent_snapshot_of(s: AgentSnapshot, a: AgentInfo, timeout: u64, now: u64) -> bool {
    &&& s.agent_id@ == a.agent_id@
    &&& s.agent_pool_id@ == a.agent_pool_id@
    &&& s.max_concurrent == capacity_of_spec(a)
    &&& s.current_load == agent_load_spec(a)
    &&& s.reserved_load == a.reserved_load
    &&& s.reported_load == a.reported_load
    &&& s.stale == stale_spec(a, timeout, now)
    &&& s.last_heartbeat_secs == elapsed_secs(now, a.last_heartbeat_at)
    &&& s.bridges@.len() == a.synced_agent_bridges@.len()
    &&& forall|i: int| 0 <= i < s.bridges@.len() ==> #[trigger] s.bridges@[i]@ == a.synced_agent_bridges@[i].package_id@ + "@"@
            + a.synced_agent_bridges@[i].version@
    &&& s.labels@ == a.labels@
}

/// The agents without those of the given id, in order.
fn retain_other_agents(ag: Vec<AgentInfo>, id: &str) -> (out: Vec<AgentInfo>)
    ensures
        out@ == without_agent(ag@, id@),
{
    let ghost orig = ag@;
    let mut rest = ag;
    let mut out: Vec<AgentInfo> = Vec::new();
    let ghost mut k: int = 0;
    proof {
        reveal(Seq::filter);
        assert(orig.take(0) =~= Seq::<AgentInfo>::empty());
        assert(orig.skip(0) =~= orig);
    }
    while rest.len() > 0
        invariant
            0 <= k <= orig.len(),
            rest@ == orig.skip(k),
            out@ == without_agent(orig.take(k), id@),
        decreases rest@.len(),
    {
        let a = rest.remove(0);
        let ghost before = out@;
        proof {
            reveal(Seq::filter);
            assert(a == orig[k]);
            assert(orig.take(k + 1).drop_last() =~= orig.take(k));
            assert(orig.take(k + 1).last() == orig[k]);
            assert(rest@ =~= orig.skip(k + 1));
            assert(without_agent(orig.take(k + 1), id@) == (if orig[k].agent_id@ != id@ {
                without_agent(orig.take(k), id@).push(orig[k])
            } else {
                without_agent(orig.take(k), id@)
            }));
        }
        let same = str_eq(a.agent_id.as_str(), id);
        if !same {
            out.push(a);
        }
        proof {
            k = k + 1;
        }
    }
    proof {
        assert(orig.take(k) =~= orig);
    }
    out
}

/// Every position that `runnable_prefix` lists is valid and may take the job.
pub proof fn lemma_runnable_in_range(ag: Seq<AgentInfo>, pool: Seq<char>, bid: Seq<char>, bver: Seq<char>, timeout: u64, now: u64, n: int)
    requires
        0 <= n <= ag.len(),
    ensures
        forall|k: int| 0 <= k < runnable_prefix(ag, pool, bid, bver, timeout, now, n).len() ==> 0 <= #[trigger] runnable_prefix(ag, pool, bid, bver, timeout, now, n)[k] < n,
        forall|k: int| 0 <= k < runnable_prefix(ag, pool, bid, bver, timeout, now, n).len() ==> can_run_spec(ag[#[trigger] runnable_prefix(ag, pool, bid, bver, timeout, now, n)[k]], pool, bid, bver, timeout, now),
        runnable_prefix(ag, pool, bid, bver, timeout, now, n).len() <= n,
    decreases n,
{
    if n > 0 {
        lemma_runnable_in_range(ag, pool, bid, bver, timeout, now, n - 1);
    }
}

/// The outcome of `try_reserve` from agents `ag0` and counter `c0`:
/// nothing with no agents; the preferred agent if it may take the job (the
/// counter stays); otherwise the first agent that a round from the counter
/// finds (the counter moves on by one either way).
pub open spec fn try_reserve_outcome(ag0: Seq<AgentInfo>, ag1: Seq<AgentInfo>, c0: usize, c1: usize, pool: Seq<char>, bid: Seq<char>, bver: Seq<char>, pref: Seq<char>, timeout: u64, now: u64, r: Option<String>) -> bool {
    if ag0.len() == 0 {
        r is None && ag1 == ag0 && c1 == c0
    } else if pref.len() != 0 && preferred_pick(ag0, pref, pool, bid, bver, timeout, now) is Some {
        let i = preferred_pick(ag0, pref, pool, bid, bver, timeout, now).unwrap();
        &&& r matches Some(id) && id@ == ag0[i].agent_id@
        &&& ag1 == ag0.update(i, agent_reserved_once(ag0[i]))
        &&& c1 == c0
    } else {
        &&& c1 == c0.wrapping_add(1)
        &&& match round_pick(ag0, pool, bid, bver, timeout, now, c0) {
            Some(i) => r matches Some(id) && id@ == ag0[i].agent_id@ && ag1 == ag0.update(i, agent_reserved_once(ag0[i])),
            None => r is None && ag1 == ag0,
        }
    }
}

/// Law: `try_reserve` never takes an agent past its concurrency limit: the
/// agent it reserves had room, so its load afterwards is at most its limit.
pub proof fn law_try_reserve_stays_within_capacity(ag: Seq<AgentInfo>, pool: Seq<char>, bid: Seq<char>, bver: Seq<char>, pref: Seq<char>, timeout: u64, now: u64, start: usize)
    ensures
        preferred_pick(ag, pref, pool, bid, bver, timeout, now) matches Some(i) ==> 0 <= i < ag.len()
            && agent_load_spec(agent_reserved_once(ag[i])) <= capacity_of_spec(ag[i]),
        ag.len() > 0 ==> (round_pick(ag, pool, bid, bver, timeout, now, start) matches Some(i) ==> 0 <= i < ag.len()
            && agent_load_spec(agent_reserved_once(ag[i])) <= capacity_of_spec(ag[i])),
{
    if exists|i: int| 0 <= i < ag.len() && #[trigger] ag[i].agent_id@ == pref && can_run_spec(ag[i], pool, bid, bver, timeout, now) {
        lemma_min_pref(ag, pref, pool, bid, bver, timeout, now, ag.len() as int);
    }
    if ag.len() > 0 {
        let n = ag.len() as int;
        if exists|k: int| 0 <= k < n && can_run_spec(#[trigger] ag[probe(start, k, n)], pool, bid, bver, timeout, now) {
            let k = choose|k: int| 0 <= k < n && can_run_spec(ag[probe(start, k, n)], pool, bid, bver, timeout, now)
                && forall|j: int| 0 <= j < k ==> !can_run_spec(#[trigger] ag[probe(start, j, n)], pool, bid, bver, timeout, now);
            let w = choose|k: int| 0 <= k < n && can_run_spec(#[trigger] ag[probe(start, k, n)], pool, bid, bver, timeout, now);
            lemma_min_probe(ag, pool, bid, bver, timeout, now, start, n);
        }
    }
}

/// While `start + k` does not pass the `usize` limit for `k < n`, the `n`
/// probes of a round visit every position.
proof fn lemma_probe_covers(start: usize, n: int, i: int) -> (k: int)
    requires
        0 < n,
        start + n <= usize::MAX + 1,
        0 <= i < n,
    ensures
        0 <= k < n,
        probe(start, k, n) == i,
{
    let st = start as int;
    vstd::arithmetic::div_mod::lemma_fundamental_div_mod(st, n);
    let q = st / n;
    let s = st % n;
    let k = if i >= s { i - s } else { i - s + n };
    assert(start.wrapping_add(k as usize) as int == st + k);
    if i >= s {
        assert(st + k == n * q + i);
        vstd::arithmetic::div_mod::lemma_mod_multiples_vanish(q, i, n);
    } else {
        assert(n * (q + 1) == n * q + n) by (nonlinear_arith);
        assert(st + k == n * (q + 1) + i);
        vstd::arithmetic::div_mod::lemma_mod_multiples_vanish(q + 1, i, n);
    }
    vstd::arithmetic::div_mod::lemma_small_mod(i as nat, n as nat);
    k
}

/// Law: what `try_reserve` grants. A granted agent was in the pool (or any
/// pool was asked for), live, of the asked bridge and below its limit; it
/// alone gains one reservation. The preferred agent is granted whenever it
/// may take the job. A refusal leaves every agent as it was and, while the
/// probe counter does not pass the `usize` limit within the round, means
/// that no agent could take the job.
pub proof fn law_try_reserve_grants_an_eligible_agent(
    ag0: Seq<AgentInfo>,
    ag1: Seq<AgentInfo>,
    c0: usize,
    c1: usize,
    pool: Seq<char>,
    bid: Seq<char>,
    bver: Seq<char>,
    pref: Seq<char>,
    timeout: u64,
    now: u64,
    r: Option<String>,
)
    requires
        try_reserve_outcome(ag0, ag1, c0, c1, pool, bid, bver, pref, timeout, now, r),
    ensures
        r matches Some(id) ==> exists|i: int|
            0 <= i < ag0.len() && #[trigger] ag0[i].agent_id@ == id@
            && can_run_spec(ag0[i], pool, bid, bver, timeout, now)
            && ag1 == ag0.update(i, agent_reserved_once(ag0[i]))
            && ag1[i].reserved_load == ag0[i].reserved_load + 1,
        r is None ==> ag1 == ag0,
        (r is None && c0 + ag0.len() <= usize::MAX + 1) ==> forall|i: int|
            0 <= i < ag0.len() ==> !can_run_spec(#[trigger] ag0[i], pool, bid, bver, timeout, now),
        (pref.len() != 0 && exists|i: int|
            0 <= i < ag0.len() && #[trigger] ag0[i].agent_id@ == pref && can_run_spec(ag0[i], pool, bid, bver, timeout, now))
            ==> (r matches Some(id) && id@ == pref),
{
    let n = ag0.len() as int;
    if exists|i: int| 0 <= i < n && #[trigger] ag0[i].agent_id@ == pref && can_run_spec(ag0[i], pool, bid, bver, timeout, now) {
        lemma_min_pref(ag0, pref, pool, bid, bver, timeout, now, n);
    }
    if n > 0 {
        if exists|k: int| 0 <= k < n && can_run_spec(#[trigger] ag0[probe(c0, k, n)], pool, bid, bver, timeout, now) {
            lemma_min_probe(ag0, pool, bid, bver, timeout, now, c0, n);
        }
    }
    if r is Some {
        let i = if pref.len() != 0 && preferred_pick(ag0, pref, pool, bid, bver, timeout, now) is Some {
            preferred_pick(ag0, pref, pool, bid, bver, timeout, now).unwrap()
        } else {
            round_pick(ag0, pool, bid, bver, timeout, now, c0).unwrap()
        };
        assert(0 <= i < n && can_run_spec(ag0[i], pool, bid, bver, timeout, now));
        assert(ag1[i] == agent_reserved_once(ag0[i]));
    }
    if r is None && c0 + n <= usize::MAX + 1 {
        assert forall|i: int| 0 <= i < n implies !can_run_spec(#[trigger] ag0[i], pool, bid, bver, timeout, now) by {
            let k = lemma_probe_covers(c0, n, i);
            assert(ag0[probe(c0, k, n)] == ag0[i]);
        }
    }
}

/// Law: an agent is picked or reserved for a job only while both its own
/// reservations and the jobs it reports running are below its limit
/// (`max_concurrent`, or one when that is 0), and it is live in the pool
/// and has synced the bridge (version) asked for. So an agent that reports as many jobs as its limit
/// is never given another, whoever reserved them.
pub proof fn law_agent_choice_respects_reported_load(
    ag: Seq<AgentInfo>,
    ag1: Seq<AgentInfo>,
    c0: usize,
    c1: usize,
    pool: Seq<char>,
    bid: Seq<char>,
    bver: Seq<char>,
    pref: Seq<char>,
    timeout: u64,
    now: u64,
    counter: usize,
    r: Option<String>,
)
    ensures
        pick_agent_spec(ag, pool, bid, bver, timeout, now, counter) matches Ok(i) ==> {
            &&& 0 <= i < ag.len()
            &&& ag[i].reported_load < (if ag[i].max_concurrent > 0 { ag[i].max_concurrent } else { 1 })
            &&& ag[i].reserved_load < (if ag[i].max_concurrent > 0 { ag[i].max_concurrent } else { 1 })
            &&& (pool.len() == 0 || ag[i].agent_pool_id@ == pool)
            &&& elapsed_secs(now, ag[i].last_heartbeat_at) <= timeout
            &&& bid.len() > 0 ==> exists|j: int|
                0 <= j < ag[i].synced_agent_bridges@.len() && #[trigger] ag[i].synced_agent_bridges@[j].package_id@ == bid
                    && (bver.len() == 0 || ag[i].synced_agent_bridges@[j].version@ == bver)
        },
        try_reserve_outcome(ag, ag1, c0, c1, pool, bid, bver, pref, timeout, now, r) && r is Some ==> exists|i: int|
            0 <= i < ag.len() && #[trigger] ag[i].agent_id@ == r.unwrap()@
            && ag[i].reported_load < (if ag[i].max_concurrent > 0 { ag[i].max_concurrent } else { 1 })
            && ag[i].reserved_load < (if ag[i].max_concurrent > 0 { ag[i].max_concurrent } else { 1 })
            && (pool.len() == 0 || ag[i].agent_pool_id@ == pool)
            && elapsed_secs(now, ag[i].last_heartbeat_at) <= timeout,
        forall|i: int| 0 <= i < ag.len() && #[trigger] can_run_spec(ag[i], pool, bid, bver, timeout, now) ==> {
            &&& ag[i].reported_load < (if ag[i].max_concurrent > 0 { ag[i].max_concurrent } else { 1 })
            &&& ag[i].reserved_load < (if ag[i].max_concurrent > 0 { ag[i].max_concurrent } else { 1 })
        },
{
    lemma_runnable_in_range(ag, pool, bid, bver, timeout, now, ag.len() as int);
    let c = runnable_prefix(ag, pool, bid, bver, timeout, now, ag.len() as int);
    if c.len() > 0 {
        let k = (counter as int) % (c.len() as int);
        vstd::arithmetic::div_mod::lemma_mod_bound(counter as int, c.len() as int);
        assert(can_run_spec(ag[c[k]], pool, bid, bver, timeout, now));
    }
    if try_reserve_outcome(ag, ag1, c0, c1, pool, bid, bver, pref, timeout, now, r) && r is Some {
        law_try_reserve_grants_an_eligible_agent(ag, ag1, c0, c1, pool, bid, bver, pref, timeout, now, r);
        let i = choose|i: int|
            0 <= i < ag.len() && #[trigger] ag[i].agent_id@ == r.unwrap()@
            && can_run_spec(ag[i], pool, bid, bver, timeout, now)
            && ag1 == ag.update(i, agent_reserved_once(ag[i]))
            && ag1[i].reserved_load == ag[i].reserved_load + 1;
        assert(can_run_spec(ag[i], pool, bid, bver, timeout, now));
    }
}

/// The runnable positions come in list order, each once.
proof fn lemma_runnable_increasing(ag: Seq<AgentInfo>, pool: Seq<char>, bid: Seq<char>, bver: Seq<char>, timeout: u64, now: u64, n: int)
    requires
        0 <= n <= ag.len(),
    ensures
        forall|a: int, b: int|
            0 <= a < b < runnable_prefix(ag, pool, bid, bver, timeout, now, n).len() ==> #[trigger] runnable_prefix(
                ag,
                pool,
                bid,
                bver,
                timeout,
                now,
                n,
            )[a] < #[trigger] runnable_prefix(ag, pool, bid, bver, timeout, now, n)[b],
    decreases n,
{
    if n > 0 {
        lemma_runnable_increasing(ag, pool, bid, bver, timeout, now, n - 1);
        lemma_runnable_in_range(ag, pool, bid, bver, timeout, now, n - 1);
    }
}

/// Law: agent picking is round-robin. With the agents unchanged and at
/// least two that may take the job, two consecutive picks (the counter
/// moved on by one) choose different agents.
pub proof fn law_consecutive_agent_picks_rotate(ag: Seq<AgentInfo>, pool: Seq<char>, bid: Seq<char>, bver: Seq<char>, timeout: u64, now: u64, counter: usize)
    requires
        counter < usize::MAX,
        runnable_prefix(ag, pool, bid, bver, timeout, now, ag.len() as int).len() >= 2,
    ensures
        pick_agent_spec(ag, pool, bid, bver, timeout, now, counter) matches Ok(i) && pick_agent_spec(
            ag,
            pool,
            bid,
            bver,
            timeout,
            now,
            (counter + 1) as usize,
        ) matches Ok(j) && i != j,
{
    let c = runnable_prefix(ag, pool, bid, bver, timeout, now, ag.len() as int);
    let len = c.len() as int;
    lemma_runnable_increasing(ag, pool, bid, bver, timeout, now, ag.len() as int);
    crate::scheduler::lemma_next_mod_differs(counter as int, len);
    vstd::arithmetic::div_mod::lemma_mod_bound(counter as int, len);
    vstd::arithmetic::div_mod::lemma_mod_bound(counter as int + 1, len);
    let a = (counter as int) % len;
    let b = (counter as int + 1) % len;
    if a < b {
        assert(c[a] < c[b]);
    } else {
        assert(c[b] < c[a]);
    }
}

/// Among the agents with the id that may take the job there is a first one.
proof fn lemma_min_pref(ag: Seq<AgentInfo>, id: Seq<char>, pool: Seq<char>, bid: Seq<char>, bver: Seq<char>, timeout: u64, now: u64, m: int)
    requires
        0 <= m <= ag.len(),
        exists|i: int| 0 <= i < m && #[trigger] ag[i].agent_id@ == id && can_run_spec(ag[i], pool, bid, bver, timeout, now),
    ensures
        exists|i: int| 0 <= i < m && ag[i].agent_id@ == id && can_run_spec(ag[i], pool, bid, bver, timeout, now)
            && forall|j: int| 0 <= j < i ==> !(#[trigger] ag[j].agent_id@ == id && can_run_spec(ag[j], pool, bid, bver, timeout, now)),
    decreases m,
{
    if exists|i: int| 0 <= i < m - 1 && #[trigger] ag[i].agent_id@ == id && can_run_spec(ag[i], pool, bid, bver, timeout, now) {
        lemma_min_pref(ag, id, pool, bid, bver, timeout, now, m - 1);
        let i = choose|i: int| 0 <= i < m - 1 && ag[i].agent_id@ == id && can_run_spec(ag[i], pool, bid, bver, timeout, now)
            && forall|j: int| 0 <= j < i ==> !(#[trigger] ag[j].agent_id@ == id && can_run_spec(ag[j], pool, bid, bver, timeout, now));
        assert(0 <= i < m);
    } else {
        let w = choose|i: int| 0 <= i < m && #[trigger] ag[i].agent_id@ == id && can_run_spec(ag[i], pool, bid, bver, timeout, now);
        assert(w == m - 1);
        assert(forall|j: int| 0 <= j < m - 1 ==> !(#[trigger] ag[j].agent_id@ == id && can_run_spec(ag[j], pool, bid, bver, timeout, now)));
    }
}

/// Among the probes that find an agent there is a first one.
proof fn lemma_min_probe(ag: Seq<AgentInfo>, pool: Seq<char>, bid: Seq<char>, bver: Seq<char>, timeout: u64, now: u64, start: usize, m: int)
    requires
        0 < ag.len(),
        0 <= m <= ag.len(),
        exists|k: int| 0 <= k < m && can_run_spec(#[trigger] ag[probe(start, k, ag.len() as int)], pool, bid, bver, timeout, now),
    ensures
        exists|k: int| 0 <= k < m && can_run_spec(ag[probe(start, k, ag.len() as int)], pool, bid, bver, timeout, now)
            && forall|j: int| 0 <= j < k ==> !can_run_spec(#[trigger] ag[probe(start, j, ag.len() as int)], pool, bid, bver, timeout, now),
    decreases m,
{
    let n = ag.len() as int;
    if exists|k: int| 0 <= k < m - 1 && can_run_spec(#[trigger] ag[probe(start, k, n)], pool, bid, bver, timeout, now) {
        lemma_min_probe(ag, pool, bid, bver, timeout, now, start, m - 1);
        let k = choose|k: int| 0 <= k < m - 1 && can_run_spec(ag[probe(start, k, n)], pool, bid, bver, timeout, now)
            && forall|j: int| 0 <= j < k ==> !can_run_spec(#[trigger] ag[probe(start, j, n)], pool, bid, bver, timeout, now);
        assert(0 <= k < m);
    } else {
        let w = choose|k: int| 0 <= k < m && can_run_spec(#[trigger] ag[probe(start, k, n)], pool, bid, bver, timeout, now);
        assert(w == m - 1);
        assert(forall|j: int| 0 <= j < m - 1 ==> !can_run_spec(#[trigger] ag[probe(start, j, n)], pool, bid, bver, timeout, now));
    }
}

/// Law: registration keeps agent ids distinct: the new record replaces every
/// earlier record of its id.
pub proof fn law_register_keeps_agent_ids_distinct(ag: Seq<AgentInfo>, info: AgentInfo)
    requires
        distinct_agent_ids(ag),
    ensures
        distinct_agent_ids(without_agent(ag, info.agent_id@).push(info)),
        forall|i: int| 0 <= i < without_agent(ag, info.agent_id@).len() ==> ag.contains(#[trigger] without_agent(ag, info.agent_id@)[i]),
{
    lemma_without_agent(ag, info.agent_id@);
    let w = without_agent(ag, info.agent_id@);
    let r = w.push(info);
    assert forall|a: int, b: int| 0 <= a < r.len() && 0 <= b < r.len() && a != b implies #[trigger] r[a].agent_id@ != #[trigger] r[b].agent_id@ by {
        if a < w.len() && b < w.len() {
            assert(r[a] == w[a] && r[b] == w[b]);
        } else if a < w.len() {
            assert(r[a] == w[a]);
        } else {
            assert(r[b] == w[b]);
        }
    }
}

/// What `without_agent` keeps: distinct, from the list, without the id.
proof fn lemma_without_agent(ag: Seq<AgentInfo>, id: Seq<char>)
    ensures
        forall|j: int| 0 <= j < without_agent(ag, id).len() ==> (#[trigger] without_agent(ag, id)[j]).agent_id@ != id,
        forall|j: int| 0 <= j < without_agent(ag, id).len() ==> ag.contains(#[trigger] without_agent(ag, id)[j]),
        distinct_agent_ids(ag) ==> distinct_agent_ids(without_agent(ag, id)),
    decreases ag.len(),
{
    reveal(Seq::filter);
    if ag.len() > 0 {
        let d = ag.drop_last();
        lemma_without_agent(d, id);
        let w0 = without_agent(d, id);
        let w = without_agent(ag, id);
        assert forall|j: int| 0 <= j < w.len() implies ag.contains(#[trigger] w[j]) by {
            if j < w0.len() {
                assert(d.contains(w0[j]));
                let m = choose|m: int| 0 <= m < d.len() && d[m] == w0[j];
                assert(ag[m] == w0[j]);
            } else {
                assert(ag[ag.len() - 1] == w[j]);
            }
        }
        if distinct_agent_ids(ag) {
            assert(distinct_agent_ids(d)) by {
                assert forall|a: int, b: int| 0 <= a < d.len() && 0 <= b < d.len() && a != b implies #[trigger] d[a].agent_id@ != #[trigger] d[b].agent_id@ by {
                    assert(d[a] == ag[a] && d[b] == ag[b]);
                }
            }
            let last = ag.last();
            assert forall|j: int| 0 <= j < w0.len() implies #[trigger] w0[j].agent_id@ != last.agent_id@ by {
                assert(d.contains(w0[j]));
                let m = choose|m: int| 0 <= m < d.len() && d[m] == w0[j];
                assert(ag[m] == w0[j]);
            }
            if last.agent_id@ != id {
                assert(w == w0.push(last));
                assert forall|a: int, b: int| 0 <= a < w.len() && 0 <= b < w.len() && a != b implies #[trigger] w[a].agent_id@ != #[trigger] w[b].agent_id@ by {
                    if a < w0.len() && b < w0.len() {
                        assert(w[a] == w0[a] && w[b] == w0[b]);
                    } else if a < w0.len() {
                        assert(w[a] == w0[a]);
                    } else {
                        assert(w[b] == w0[b]);
                    }
                }
            }
        }
    }
}

} // verus!
