//! The read-only views that the admin endpoints return: workers with the
//! episodes running on them, agent pools with their capacity and queue,
//! agents and the agent jobs in flight.
use crate::agent_pool::AgentSnapshot;
use crate::clock::{elapsed_secs, elapsed_secs_between};
use crate::scheduler::WorkerSnapshot;
use crate::state::ActiveEpisode;
use crate::string_map::StringMap;
use crate::text::str_eq;
use vstd::prelude::*;

verus! {

broadcast use {vstd::string::group_string_axioms, vstd::seq_lib::group_to_multiset_ensures};

/// An active episode as the admin view shows it.
#[derive(Debug, Clone)]
pub struct EpisodeDto {
    pub episode_id: String,
    pub attempt_id: u32,
    pub batch_id: String,
    pub elapsed_secs: u64,
}

/// A worker as the admin view shows it, with the episodes running on it.
#[derive(Debug)]
pub struct WorkerDto {
    pub worker_id: String,
    pub endpoint: String,
    pub supported_env_types: Vec<String>,
    pub status: String,
    pub load: u32,
    pub capacity: u32,
    pub last_heartbeat_secs: Option<u64>,
    pub last_report_secs: Option<u64>,
    pub episodes: Vec<EpisodeDto>,
}

/// The server status view.
#[derive(Debug)]
pub struct AdminStatusDto {
    pub server_epoch: u64,
    pub worker_count: usize,
    pub total_capacity: u32,
    pub active_episodes: usize,
    pub pending_results: usize,
    pub queue_permits: i64,
    pub workers: Vec<WorkerDto>,
}

/// An agent as the admin view shows it.
#[derive(Debug)]
pub struct AgentDto {
    pub agent_id: String,
    pub agent_pool_id: String,
    pub max_concurrent: u32,
    pub current_load: u32,
    pub reserved_load: u32,
    pub reported_load: u32,
    pub stale: bool,
    pub last_heartbeat_secs: u64,
    pub bridges: Vec<String>,
    pub labels: StringMap,
}

/// Capacity, load and queue of one agent pool.
#[derive(Debug, Clone)]
pub struct AgentPoolDto {
    pub agent_pool_id: String,
    pub total_capacity: u32,
    pub total_load: u32,
    pub pending_jobs: usize,
}

/// An agent job that was handed out and has not completed.
#[derive(Debug, Clone)]
pub struct InFlightJobDto {
    pub job_id: String,
    pub agent_id: Option<String>,
}

/// The agent subsystem view.
#[derive(Debug)]
pub struct AgentStatusDto {
    pub server_epoch: u64,
    pub agent_count: usize,
    pub outstanding_jobs: usize,
    pub pending_jobs: usize,
    pub running_jobs: usize,
    pub pools: Vec<AgentPoolDto>,
    pub agents: Vec<AgentDto>,
    pub in_flight_detail: Vec<InFlightJobDto>,
}

/// The status a worker is shown with.
pub open spec fn worker_status_text(draining: bool, degraded: bool) -> Seq<char> {
    if draining {
        "draining"@
    } else if degraded {
        "degraded"@
    } else {
        "ready"@
    }
}

/// The status a worker is shown with: draining first, then degraded, else ready.
pub fn worker_status_label(draining: bool, degraded: bool) -> (s: &'static str)
    ensures
        s@ == worker_status_text(draining, degraded),
{
    if draining {
        "draining"
    } else if degraded {
        "degraded"
    } else {
        "ready"
    }
}

/// The admin view of the active episodes on `worker_id`, in the order given.
pub open spec fn episodes_of(active: Seq<ActiveEpisode>, worker_id: Seq<char>, now_ms: u64) -> Seq<EpisodeDto>
    decreases active.len(),
{
    if active.len() == 0 {
        Seq::empty()
    } else {
        let rest = episodes_of(active.drop_last(), worker_id, now_ms);
        let e = active.last();
        if e.worker_id@ == worker_id {
            rest.push(
                EpisodeDto {
                    episode_id: e.episode_id,
                    attempt_id: e.attempt_id,
                    batch_id: e.batch_id,
                    elapsed_secs: elapsed_secs(now_ms, e.started_at_ms) as u64,
                },
            )
        } else {
            rest
        }
    }
}

/// Are the episodes ordered from the longest running to the shortest?
pub open spec fn longest_first(v: Seq<EpisodeDto>) -> bool {
    forall|i: int, j: int| 0 <= i < j < v.len() ==> #[trigger] v[i].elapsed_secs >= #[trigger] v[j].elapsed_secs
}

/// Is `r` the items of `v` placed by `p` (item `k` of `r` is item `p[k]` of
/// `v`, each taken once), with items of equal running time in the order they
/// had in `v`?
pub open spec fn stable_placement(r: Seq<EpisodeDto>, v: Seq<EpisodeDto>, p: Seq<int>) -> bool {
    &&& p.len() == r.len()
    &&& forall|k: int| 0 <= k < p.len() ==> 0 <= #[trigger] p[k] < v.len() && r[k] == v[p[k]]
    &&& forall|k: int, l: int| 0 <= k < l < p.len() ==> #[trigger] p[k] != #[trigger] p[l]
    &&& forall|k: int, l: int|
        0 <= k < l < p.len() && #[trigger] r[k].elapsed_secs == #[trigger] r[l].elapsed_secs ==> p[k] < p[l]
}

/// The episodes reordered from the longest running to the shortest; those
/// that have run equally long keep their order.
pub fn sort_longest_first(v: Vec<EpisodeDto>) -> (r: Vec<EpisodeDto>)
    ensures
        longest_first(r@),
        r@.to_multiset() == v@.to_multiset(),
        r@.len() == v@.len(),
        exists|p: Seq<int>| #[trigger] stable_placement(r@, v@, p),
{
    let mut out: Vec<EpisodeDto> = Vec::new();
    let mut rest = v;
    let ghost orig = rest@;
    let ghost mut i: int = 0;
    let ghost mut idx: Seq<int> = Seq::empty();
    while rest.len() > 0
        invariant
            0 <= i <= orig.len(),
            rest@ == orig.skip(i),
            longest_first(out@),
            out@.to_multiset() == orig.take(i).to_multiset(),
            out@.len() == i,
            stable_placement(out@, orig, idx),
            forall|k: int| 0 <= k < idx.len() ==> #[trigger] idx[k] < i,
        decreases rest@.len(),
    {
        let e = rest.remove(0);
        let mut pos: usize = 0;
        while pos < out.len() && out[pos].elapsed_secs >= e.elapsed_secs
            invariant
                pos <= out@.len(),
                forall|a: int| 0 <= a < pos ==> #[trigger] out@[a].elapsed_secs >= e.elapsed_secs,
            decreases out@.len() - pos,
        {
            pos = pos + 1;
        }
        let ghost before = out@;
        let ghost before_idx = idx;
        proof {
            assert(pos == before.len() || before[pos as int].elapsed_secs < e.elapsed_secs);
        }
        out.insert(pos, e);
        proof {
            assert(e == orig[i]);
            idx = before_idx.insert(pos as int, i);
            assert forall|k: int| 0 <= k < idx.len() implies 0 <= #[trigger] idx[k] < orig.len() && out@[k] == orig[idx[k]]
                && idx[k] < i + 1 by {
                if k < pos {
                    assert(idx[k] == before_idx[k] && out@[k] == before[k]);
                } else if k > pos {
                    assert(idx[k] == before_idx[k - 1] && out@[k] == before[k - 1]);
                }
            }
            assert forall|k: int, l: int| 0 <= k < l < idx.len() implies #[trigger] idx[k] != #[trigger] idx[l] by {
                if k != pos && l != pos {
                    let k2 = if k < pos { k } else { k - 1 };
                    let l2 = if l < pos { l } else { l - 1 };
                    assert(idx[k] == before_idx[k2] && idx[l] == before_idx[l2]);
                } else if k == pos {
                    assert(idx[l] == before_idx[l - 1]);
                } else {
                    assert(idx[k] == before_idx[k]);
                }
            }
            assert forall|k: int, l: int|
                0 <= k < l < idx.len() && #[trigger] out@[k].elapsed_secs == #[trigger] out@[l].elapsed_secs implies idx[k]
                    < idx[l] by {
                if k != pos && l != pos {
                    let k2 = if k < pos { k } else { k - 1 };
                    let l2 = if l < pos { l } else { l - 1 };
                    assert(idx[k] == before_idx[k2] && idx[l] == before_idx[l2]);
                    assert(out@[k] == before[k2] && out@[l] == before[l2]);
                } else if k == pos {
                    assert(out@[l] == before[l - 1]);
                    if l - 1 > pos {
                        assert(before[pos as int].elapsed_secs >= before[l - 1].elapsed_secs);
                    }
                    assert(false);
                } else {
                    assert(idx[k] == before_idx[k]);
                }
            }
            assert(stable_placement(out@, orig, idx));
            assert(orig.take(i + 1) =~= orig.take(i).push(orig[i]));
            vstd::seq_lib::to_multiset_insert(before, pos as int, e);
            vstd::seq_lib::to_multiset_build(orig.take(i), orig[i]);
            assert forall|a: int, b: int| 0 <= a < b < out@.len() implies #[trigger] out@[a].elapsed_secs
                >= #[trigger] out@[b].elapsed_secs by {
                if b < pos {
                    assert(out@[a] == before[a] && out@[b] == before[b]);
                } else if b == pos {
                    assert(out@[a] == before[a]);
                } else if a == pos {
                    assert(out@[b] == before[b - 1]);
                    if b - 1 > pos {
                        assert(before[pos as int].elapsed_secs >= before[b - 1].elapsed_secs);
                    }
                } else if a < pos {
                    assert(out@[a] == before[a] && out@[b] == before[b - 1]);
                } else {
                    assert(out@[a] == before[a - 1] && out@[b] == before[b - 1]);
                }
            }
            i = i + 1;
            assert(rest@ =~= orig.skip(i));
        }
    }
    proof {
        assert(orig.take(i) =~= orig);
        assert(stable_placement(out@, orig, idx));
    }
    out
}

/// The active episodes on a worker, with their running time.
pub fn episodes_on_worker(active: &Vec<ActiveEpisode>, worker_id: &str, now_ms: u64) -> (r: Vec<EpisodeDto>)
    ensures
        r@ == episodes_of(active@, worker_id@, now_ms),
{
    let mut out: Vec<EpisodeDto> = Vec::new();
    let mut i: usize = 0;
    while i < active.len()
        invariant
            i <= active@.len(),
            out@ == episodes_of(active@.take(i as int), worker_id@, now_ms),
        decreases active@.len() - i,
    {
        let e = &active[i];
        proof {
            assert(active@.take(i + 1).drop_last() =~= active@.take(i as int));
            assert(active@.take(i + 1).last() == active@[i as int]);
        }
        if str_eq(e.worker_id.as_str(), worker_id) {
            out.push(
                EpisodeDto {
                    episode_id: e.episode_id.clone(),
                    attempt_id: e.attempt_id,
                    batch_id: e.batch_id.clone(),
                    elapsed_secs: elapsed_secs_between(now_ms, e.started_at_ms),
                },
            );
        }
        i = i + 1;
    }
    proof {
        assert(active@.take(active@.len() as int) =~= active@);
    }
    out
}

/// The running time of an optional moment, in seconds.
pub open spec fn opt_elapsed(now_ms: u64, at: Option<u64>) -> Option<u64> {
    match at {
        Some(t) => Some(elapsed_secs(now_ms, t) as u64),
        None => None,
    }
}

fn elapsed_opt(now_ms: u64, at: Option<u64>) -> (r: Option<u64>)
    ensures
        r == opt_elapsed(now_ms, at),
{
    match at {
        Some(t) => Some(elapsed_secs_between(now_ms, t)),
        None => None,
    }
}

/// Is `d` the admin view of worker `w` at `now_ms`: its snapshot, its status
/// label, how long ago it reported and sent a heartbeat, and its active
/// episodes from the longest running to the shortest (those that ran equally
/// long in the order of `active`)?
pub open spec fn shows_worker(d: WorkerDto, w: WorkerSnapshot, active: Seq<ActiveEpisode>, now_ms: u64) -> bool {
    &&& d.worker_id == w.worker_id
    &&& d.endpoint == w.endpoint
    &&& d.supported_env_types == w.supported_env_types
    &&& d.status@ == worker_status_text(w.draining, w.degraded)
    &&& d.load == w.current_load
    &&& d.capacity == w.capacity
    &&& d.last_heartbeat_secs == opt_elapsed(now_ms, w.last_heartbeat_at)
    &&& d.last_report_secs == opt_elapsed(now_ms, w.last_report_at)
    &&& longest_first(d.episodes@)
    &&& d.episodes@.to_multiset() == episodes_of(active, w.worker_id@, now_ms).to_multiset()
    &&& exists|p: Seq<int>| #[trigger] stable_placement(d.episodes@, episodes_of(active, w.worker_id@, now_ms), p)
}

/// The admin view of a worker (see `shows_worker`).
pub fn worker_dto(w: WorkerSnapshot, active: &Vec<ActiveEpisode>, now_ms: u64) -> (d: WorkerDto)
    ensures
        shows_worker(d, w, active@, now_ms),
{
    let episodes = episodes_on_worker(active, w.worker_id.as_str(), now_ms);
    let episodes = sort_longest_first(episodes);
    WorkerDto {
        status: worker_status_label(w.draining, w.degraded).to_string(),
        load: w.current_load,
        capacity: w.capacity,
        last_heartbeat_secs: elapsed_opt(now_ms, w.last_heartbeat_at),
        last_report_secs: elapsed_opt(now_ms, w.last_report_at),
        episodes,
        worker_id: w.worker_id,
        endpoint: w.endpoint,
        supported_env_types: w.supported_env_types,
    }
}

/// The sum of the workers' capacities.
pub open spec fn capacity_sum(ws: Seq<WorkerSnapshot>) -> nat
    decreases ws.len(),
{
    if ws.len() == 0 {
        0
    } else {
        capacity_sum(ws.drop_last()) + ws.last().capacity as nat
    }
}

proof fn lemma_capacity_sum_prefix(ws: Seq<WorkerSnapshot>, i: int)
    requires
        0 <= i <= ws.len(),
    ensures
        capacity_sum(ws.take(i)) <= capacity_sum(ws),
    decreases ws.len() - i,
{
    if i < ws.len() {
        lemma_capacity_sum_prefix(ws, i + 1);
        assert(ws.take(i + 1).drop_last() =~= ws.take(i));
    } else {
        assert(ws.take(i) =~= ws);
    }
}

/// The total capacity of the workers (which must fit a `u32`, as the sum
/// the status view reports).
pub fn total_capacity(ws: &Vec<WorkerSnapshot>) -> (t: u32)
    requires
        capacity_sum(ws@) <= u32::MAX,
    ensures
        t == capacity_sum(ws@),
{
    let mut t: u32 = 0;
    let mut i: usize = 0;
    while i < ws.len()
        invariant
            i <= ws@.len(),
            capacity_sum(ws@) <= u32::MAX,
            t == capacity_sum(ws@.take(i as int)),
        decreases ws@.len() - i,
    {
        proof {
            assert(ws@.take(i + 1).drop_last() =~= ws@.take(i as int));
            lemma_capacity_sum_prefix(ws@, i + 1);
        }
        t = t + ws[i].capacity;
        i = i + 1;
    }
    proof {
        assert(ws@.take(ws@.len() as int) =~= ws@);
    }
    t
}

/// The server status view at `now_ms`: the epoch, the scheduler's worker
/// count, the workers' total capacity, the numbers of active episodes and
/// pending results, the admission permits left, and each worker's view in
/// the order of the snapshots.
pub fn admin_status(
    server_epoch: u64,
    worker_count: usize,
    snapshots: Vec<WorkerSnapshot>,
    active: &Vec<ActiveEpisode>,
    pending_results: usize,
    queue_permits: i64,
    now_ms: u64,
) -> (s: AdminStatusDto)
    requires
        capacity_sum(snapshots@) <= u32::MAX,
    ensures
        s.server_epoch == server_epoch,
        s.worker_count == worker_count,
        s.total_capacity == capacity_sum(snapshots@),
        s.active_episodes == active@.len(),
        s.pending_results == pending_results,
        s.queue_permits == queue_permits,
        s.workers@.len() == snapshots@.len(),
        forall|i: int| 0 <= i < snapshots@.len() ==> shows_worker(#[trigger] s.workers@[i], snapshots@[i], active@, now_ms),
{
    let total = total_capacity(&snapshots);
    let ghost snaps = snapshots@;
    let mut workers: Vec<WorkerDto> = Vec::new();
    proof {
        assert(snapshots@ =~= snaps.subrange(0, snaps.len() as int));
    }
    let mut rest = snapshots;
    while rest.len() > 0
        invariant
            workers@.len() + rest@.len() == snaps.len(),
            rest@ == snaps.subrange(workers@.len() as int, snaps.len() as int),
            forall|i: int| 0 <= i < workers@.len() ==> shows_worker(#[trigger] workers@[i], snaps[i], active@, now_ms),
        decreases rest@.len(),
    {
        let w = rest.remove(0);
        proof {
            assert(w == snaps[workers@.len() as int]);
            assert(rest@ =~= snaps.subrange(workers@.len() as int + 1, snaps.len() as int));
        }
        workers.push(worker_dto(w, active, now_ms));
    }
    AdminStatusDto {
        server_epoch,
        worker_count,
        total_capacity: total,
        active_episodes: active.len(),
        pending_results,
        queue_permits,
        workers,
    }
}

/// Does the workers' total capacity fit a `u32` (as the status view needs)?
pub fn capacity_sum_fits(ws: &Vec<WorkerSnapshot>) -> (b: bool)
    ensures
        b == (capacity_sum(ws@) <= u32::MAX),
{
    let mut t: u64 = 0;
    let mut i: usize = 0;
    while i < ws.len()
        invariant
            i <= ws@.len(),
            t == capacity_sum(ws@.take(i as int)),
            t <= u32::MAX,
        decreases ws@.len() - i,
    {
        proof {
            assert(ws@.take(i + 1).drop_last() =~= ws@.take(i as int));
        }
        t = t + ws[i].capacity as u64;
        if t > u32::MAX as u64 {
            proof {
                lemma_capacity_sum_prefix(ws@, i + 1);
            }
            return false;
        }
        i = i + 1;
    }
    proof {
        assert(ws@.take(ws@.len() as int) =~= ws@);
    }
    true
}

/// Sums of capacity and load of the live agents of a pool.
pub open spec fn pool_sums(agents: Seq<AgentSnapshot>, pool: Seq<char>) -> (nat, nat)
    decreases agents.len(),
{
    if agents.len() == 0 {
        (0, 0)
    } else {
        let rest = pool_sums(agents.drop_last(), pool);
        let a = agents.last();
        if !a.stale && a.agent_pool_id@ == pool {
            (rest.0 + a.max_concurrent as nat, rest.1 + a.current_load as nat)
        } else {
            rest
        }
    }
}

/// Does some live agent belong to the pool?
pub open spec fn pool_has_live_agent(agents: Seq<AgentSnapshot>, pool: Seq<char>) -> bool {
    exists|i: int| 0 <= i < agents.len() && !agents[i].stale && #[trigger] agents[i].agent_pool_id@ == pool
}

/// The queue length reported for a pool: the last entry for it, 0 without one.
pub open spec fn pending_for(pending: Seq<(String, usize)>, pool: Seq<char>) -> usize
    decreases pending.len(),
{
    if pending.len() == 0 {
        0
    } else if pending.last().0@ == pool {
        pending.last().1
    } else {
        pending_for(pending.drop_last(), pool)
    }
}

fn lookup_pending(pending: &Vec<(String, usize)>, pool: &str) -> (n: usize)
    ensures
        n == pending_for(pending@, pool@),
{
    let mut i: usize = pending.len();
    proof {
        assert(pending@.take(i as int) =~= pending@);
    }
    while i > 0
        invariant
            i <= pending@.len(),
            pending_for(pending@, pool@) == pending_for(pending@.take(i as int), pool@),
        decreases i,
    {
        proof {
            assert(pending@.take(i as int).drop_last() =~= pending@.take(i - 1));
            assert(pending@.take(i as int).last() == pending@[i - 1]);
        }
        if str_eq(pending[i - 1].0.as_str(), pool) {
            return pending[i - 1].1;
        }
        i = i - 1;
    }
    proof {
        assert(pending@.take(0) =~= Seq::<(String, usize)>::empty());
    }
    0
}

proof fn lemma_pool_sums_prefix(agents: Seq<AgentSnapshot>, pool: Seq<char>, i: int)
    requires
        0 <= i <= agents.len(),
    ensures
        pool_sums(agents.take(i), pool).0 <= pool_sums(agents, pool).0,
        pool_sums(agents.take(i), pool).1 <= pool_sums(agents, pool).1,
    decreases agents.len() - i,
{
    if i < agents.len() {
        lemma_pool_sums_prefix(agents, pool, i + 1);
        assert(agents.take(i + 1).drop_last() =~= agents.take(i));
    } else {
        assert(agents.take(i) =~= agents);
    }
}

/// The pools of the live agents, each once, in the order their first live
/// agent appears, with the sums of capacity and load of their live agents
/// and their queue length (stale agents count for nothing).
pub fn pool_summaries(agents: &Vec<AgentSnapshot>, pending: &Vec<(String, usize)>) -> (r: Vec<AgentPoolDto>)
    requires
        forall|p: Seq<char>| pool_sums(agents@, p).0 <= u32::MAX && pool_sums(agents@, p).1 <= u32::MAX,
    ensures
        forall|i: int, j: int| 0 <= i < j < r@.len() ==> r@[i].agent_pool_id@ != r@[j].agent_pool_id@,
        forall|i: int|
            0 <= i < r@.len() ==> pool_has_live_agent(agents@, #[trigger] r@[i].agent_pool_id@)
                && r@[i].total_capacity == pool_sums(agents@, r@[i].agent_pool_id@).0
                && r@[i].total_load == pool_sums(agents@, r@[i].agent_pool_id@).1
                && r@[i].pending_jobs == pending_for(pending@, r@[i].agent_pool_id@),
        forall|p: Seq<char>|
            pool_has_live_agent(agents@, p) ==> exists|i: int| 0 <= i < r@.len() && #[trigger] r@[i].agent_pool_id@ == p,
{
    let mut out: Vec<AgentPoolDto> = Vec::new();
    let mut i: usize = 0;
    while i < agents.len()
        invariant
            i <= agents@.len(),
            forall|p: Seq<char>| pool_sums(agents@, p).0 <= u32::MAX && pool_sums(agents@, p).1 <= u32::MAX,
            forall|x: int, y: int| 0 <= x < y < out@.len() ==> out@[x].agent_pool_id@ != out@[y].agent_pool_id@,
            forall|x: int|
                0 <= x < out@.len() ==> pool_has_live_agent(agents@.take(i as int), #[trigger] out@[x].agent_pool_id@)
                    && out@[x].total_capacity == pool_sums(agents@.take(i as int), out@[x].agent_pool_id@).0
                    && out@[x].total_load == pool_sums(agents@.take(i as int), out@[x].agent_pool_id@).1
                    && out@[x].pending_jobs == pending_for(pending@, out@[x].agent_pool_id@),
            forall|p: Seq<char>|
                pool_has_live_agent(agents@.take(i as int), p) ==> exists|x: int|
                    0 <= x < out@.len() && #[trigger] out@[x].agent_pool_id@ == p,
        decreases agents@.len() - i,
    {
        let a = &agents[i];
        let ghost pre = agents@.take(i as int);
        let ghost post = agents@.take(i + 1);
        proof {
            assert(post.drop_last() =~= pre);
            assert(post.last() == agents@[i as int]);
            lemma_pool_sums_prefix(agents@, a.agent_pool_id@, i + 1);
            assert forall|p: Seq<char>| pool_has_live_agent(pre, p) implies pool_has_live_agent(post, p) by {
                let k = choose|k: int| 0 <= k < pre.len() && !pre[k].stale && #[trigger] pre[k].agent_pool_id@ == p;
                assert(post[k] == pre[k]);
            }
            assert forall|p: Seq<char>| pool_has_live_agent(post, p) && !(p == a.agent_pool_id@ && !a.stale) implies pool_has_live_agent(pre, p) by {
                let k = choose|k: int| 0 <= k < post.len() && !post[k].stale && #[trigger] post[k].agent_pool_id@ == p;
                if k < pre.len() {
                    assert(pre[k] == post[k]);
                    assert(!pre[k].stale && pre[k].agent_pool_id@ == p);
                } else {
                    assert(k == pre.len());
                    assert(post[k] == agents@[i as int]);
                    assert(false);
                }
            }
        }
        if !a.stale {
            let mut pos: usize = 0;
            while pos < out.len() && !str_eq(out[pos].agent_pool_id.as_str(), a.agent_pool_id.as_str())
                invariant
                    pos <= out@.len(),
                    forall|x: int| 0 <= x < pos ==> out@[x].agent_pool_id@ != a.agent_pool_id@,
                decreases out@.len() - pos,
            {
                pos = pos + 1;
            }
            if pos < out.len() {
                let ghost before = out@;
                let cap = out[pos].total_capacity + a.max_concurrent;
                let load = out[pos].total_load + a.current_load;
                let updated = AgentPoolDto {
                    agent_pool_id: out[pos].agent_pool_id.clone(),
                    total_capacity: cap,
                    total_load: load,
                    pending_jobs: out[pos].pending_jobs,
                };
                out.set(pos, updated);
                proof {
                    assert forall|x: int| 0 <= x < out@.len() implies pool_has_live_agent(post, #[trigger] out@[x].agent_pool_id@)
                        && out@[x].total_capacity == pool_sums(post, out@[x].agent_pool_id@).0
                        && out@[x].total_load == pool_sums(post, out@[x].agent_pool_id@).1
                        && out@[x].pending_jobs == pending_for(pending@, out@[x].agent_pool_id@) by {
                        if x != pos {
                            assert(out@[x] == before[x]);
                        }
                    }
                    assert forall|p: Seq<char>| pool_has_live_agent(post, p) implies exists|x: int|
                        0 <= x < out@.len() && #[trigger] out@[x].agent_pool_id@ == p by {
                        if p == a.agent_pool_id@ {
                            assert(out@[pos as int].agent_pool_id@ == p);
                        } else {
                            let x = choose|x: int| 0 <= x < before.len() && #[trigger] before[x].agent_pool_id@ == p;
                            assert(out@[x].agent_pool_id@ == p);
                        }
                    }
                }
            } else {
                let ghost before = out@;
                let pending_jobs = lookup_pending(pending, a.agent_pool_id.as_str());
                out.push(
                    AgentPoolDto {
                        agent_pool_id: a.agent_pool_id.clone(),
                        total_capacity: a.max_concurrent,
                        total_load: a.current_load,
                        pending_jobs,
                    },
                );
                proof {
                    assert(!pool_has_live_agent(pre, a.agent_pool_id@));
                    assert(pool_sums(pre, a.agent_pool_id@) == (0nat, 0nat)) by {
                        lemma_pool_sums_zero(pre, a.agent_pool_id@);
                    }
                    assert forall|x: int| 0 <= x < out@.len() implies pool_has_live_agent(post, #[trigger] out@[x].agent_pool_id@)
                        && out@[x].total_capacity == pool_sums(post, out@[x].agent_pool_id@).0
                        && out@[x].total_load == pool_sums(post, out@[x].agent_pool_id@).1
                        && out@[x].pending_jobs == pending_for(pending@, out@[x].agent_pool_id@) by {
                        if x < before.len() {
                            assert(out@[x] == before[x]);
                        } else {
                            assert(post[i as int].agent_pool_id@ == a.agent_pool_id@);
                        }
                    }
                    assert forall|p: Seq<char>| pool_has_live_agent(post, p) implies exists|x: int|
                        0 <= x < out@.len() && #[trigger] out@[x].agent_pool_id@ == p by {
                        if p == a.agent_pool_id@ {
                            assert(out@[before.len() as int].agent_pool_id@ == p);
                        } else {
                            let x = choose|x: int| 0 <= x < before.len() && #[trigger] before[x].agent_pool_id@ == p;
                            assert(out@[x].agent_pool_id@ == p);
                        }
                    }
                }
            }
        } else {
            proof {
                assert forall|x: int| 0 <= x < out@.len() implies pool_has_live_agent(post, #[trigger] out@[x].agent_pool_id@)
                    && out@[x].total_capacity == pool_sums(post, out@[x].agent_pool_id@).0
                    && out@[x].total_load == pool_sums(post, out@[x].agent_pool_id@).1 by {
                }
            }
        }
        i = i + 1;
    }
    proof {
        assert(agents@.take(agents@.len() as int) =~= agents@);
    }
    out
}

proof fn lemma_pool_sums_zero(agents: Seq<AgentSnapshot>, pool: Seq<char>)
    requires
        !pool_has_live_agent(agents, pool),
    ensures
        pool_sums(agents, pool) == (0nat, 0nat),
    decreases agents.len(),
{
    if agents.len() > 0 {
        let rest = agents.drop_last();
        assert(!pool_has_live_agent(rest, pool)) by {
            if pool_has_live_agent(rest, pool) {
                let k = choose|k: int| 0 <= k < rest.len() && !rest[k].stale && #[trigger] rest[k].agent_pool_id@ == pool;
                assert(agents[k] == rest[k]);
            }
        }
        lemma_pool_sums_zero(rest, pool);
        if !agents.last().stale && agents.last().agent_pool_id@ == pool {
            assert(agents[agents.len() - 1] == agents.last());
        }
    }
}

/// How often `x` occurs in `ids`.
pub open spec fn name_count(ids: Seq<String>, x: Seq<char>) -> nat
    decreases ids.len(),
{
    if ids.len() == 0 {
        0
    } else {
        name_count(ids.drop_last(), x) + if ids.last()@ == x { 1nat } else { 0nat }
    }
}

proof fn lemma_name_count_positive(ids: Seq<String>, i: int)
    requires
        0 <= i < ids.len(),
    ensures
        name_count(ids, ids[i]@) > 0,
    decreases ids.len(),
{
    if i < ids.len() - 1 {
        lemma_name_count_positive(ids.drop_last(), i);
        assert(ids.drop_last()[i] == ids[i]);
    }
}

fn count_name(ids: &Vec<String>, x: &str) -> (n: usize)
    ensures
        n == name_count(ids@, x@),
{
    let mut n: usize = 0;
    let mut i: usize = 0;
    while i < ids.len()
        invariant
            i <= ids@.len(),
            n == name_count(ids@.take(i as int), x@),
            n <= i,
        decreases ids@.len() - i,
    {
        proof {
            assert(ids@.take(i + 1).drop_last() =~= ids@.take(i as int));
        }
        if str_eq(ids[i].as_str(), x) {
            n = n + 1;
        }
        i = i + 1;
    }
    proof {
        assert(ids@.take(ids@.len() as int) =~= ids@);
    }
    n
}

/// Is pool `p` listed?
pub open spec fn pool_listed(r: Seq<(String, usize)>, p: Seq<char>) -> bool {
    exists|x: int| 0 <= x < r.len() && #[trigger] r[x].0@ == p
}

/// The pools of the waiting jobs (`pool_ids`, one per job in queue order,
/// as `AgentJobQueue::pending_pool_ids` gives them), each once in the order
/// of its first job, with the length of its queue.
pub fn pending_by_pool(pool_ids: &Vec<String>) -> (r: Vec<(String, usize)>)
    ensures
        forall|x: int, y: int| 0 <= x < y < r@.len() ==> #[trigger] r@[x].0@ != #[trigger] r@[y].0@,
        forall|x: int| 0 <= x < r@.len() ==> #[trigger] r@[x].1 == name_count(pool_ids@, r@[x].0@) && r@[x].1 > 0,
        forall|j: int| 0 <= j < pool_ids@.len() ==> pool_listed(r@, #[trigger] pool_ids@[j]@),
{
    let mut r: Vec<(String, usize)> = Vec::new();
    let mut i: usize = 0;
    while i < pool_ids.len()
        invariant
            i <= pool_ids@.len(),
            forall|x: int, y: int| 0 <= x < y < r@.len() ==> #[trigger] r@[x].0@ != #[trigger] r@[y].0@,
            forall|x: int| 0 <= x < r@.len() ==> #[trigger] r@[x].1 == name_count(pool_ids@, r@[x].0@) && r@[x].1 > 0,
            forall|j: int| 0 <= j < i ==> pool_listed(r@, #[trigger] pool_ids@[j]@),
        decreases pool_ids@.len() - i,
    {
        let pool = &pool_ids[i];
        let mut listed = false;
        let mut x: usize = 0;
        while x < r.len()
            invariant
                x <= r@.len(),
                listed ==> exists|y: int| 0 <= y < r@.len() && #[trigger] r@[y].0@ == pool@,
                !listed ==> forall|y: int| 0 <= y < x ==> #[trigger] r@[y].0@ != pool@,
            decreases r@.len() - x,
        {
            if str_eq(r[x].0.as_str(), pool.as_str()) {
                listed = true;
            }
            x = x + 1;
        }
        if !listed {
            let n = count_name(pool_ids, pool.as_str());
            proof {
                lemma_name_count_positive(pool_ids@, i as int);
            }
            let ghost before = r@;
            r.push((pool.clone(), n));
            proof {
                assert forall|j: int| 0 <= j < i + 1 implies pool_listed(r@, #[trigger] pool_ids@[j]@) by {
                    if j < i {
                        assert(pool_listed(before, pool_ids@[j]@));
                        let y = choose|y: int| 0 <= y < before.len() && #[trigger] before[y].0@ == pool_ids@[j]@;
                        assert(r@[y] == before[y]);
                    } else {
                        assert(r@[before.len() as int].0@ == pool_ids@[j]@);
                    }
                }
            }
        }
        i = i + 1;
    }
    r
}

/// An in-flight job's view: no agent when the agent id is empty.
pub fn in_flight_dto(job_id: String, agent_id: String) -> (d: InFlightJobDto)
    ensures
        d.job_id == job_id,
        agent_id@.len() == 0 ==> d.agent_id is None,
        agent_id@.len() > 0 ==> d.agent_id == Some(agent_id),
{
    let empty = agent_id.as_str().unicode_len() == 0;
    InFlightJobDto { job_id, agent_id: if empty { None } else { Some(agent_id) } }
}

/// Jobs being run: those handed out that are not waiting in a queue (none
/// when more are waiting than handed out).
pub fn running_jobs(outstanding_jobs: usize, pending_jobs: usize) -> (n: usize)
    ensures
        n == (if outstanding_jobs >= pending_jobs { outstanding_jobs - pending_jobs } else { 0 }),
{
    if outstanding_jobs >= pending_jobs {
        outstanding_jobs - pending_jobs
    } else {
        0
    }
}

/// The total of the queue lengths.
pub open spec fn queued_total(pending: Seq<(String, usize)>) -> nat
    decreases pending.len(),
{
    if pending.len() == 0 {
        0
    } else {
        queued_total(pending.drop_last()) + pending.last().1 as nat
    }
}

proof fn lemma_queued_total_prefix(pending: Seq<(String, usize)>, i: int)
    requires
        0 <= i <= pending.len(),
    ensures
        queued_total(pending.take(i)) <= queued_total(pending),
    decreases pending.len() - i,
{
    if i < pending.len() {
        lemma_queued_total_prefix(pending, i + 1);
        assert(pending.take(i + 1).drop_last() =~= pending.take(i));
    } else {
        assert(pending.take(i) =~= pending);
    }
}

fn total_queued(pending: &Vec<(String, usize)>) -> (t: usize)
    requires
        queued_total(pending@) <= usize::MAX,
    ensures
        t == queued_total(pending@),
{
    let mut t: usize = 0;
    let mut i: usize = 0;
    while i < pending.len()
        invariant
            i <= pending@.len(),
            queued_total(pending@) <= usize::MAX,
            t == queued_total(pending@.take(i as int)),
        decreases pending@.len() - i,
    {
        proof {
            assert(pending@.take(i + 1).drop_last() =~= pending@.take(i as int));
            lemma_queued_total_prefix(pending@, i + 1);
        }
        t = t + pending[i].1;
        i = i + 1;
    }
    proof {
        assert(pending@.take(pending@.len() as int) =~= pending@);
    }
    t
}

/// Is `d` the view of the in-flight job `job` (its id and agent id)?
pub open spec fn shows_in_flight(d: InFlightJobDto, job: (String, String)) -> bool {
    d.job_id == job.0 && if job.1@.len() == 0 {
        d.agent_id is None
    } else {
        d.agent_id == Some(job.1)
    }
}

/// Is `d` the admin view of agent `a`?
pub open spec fn shows_agent(d: AgentDto, a: AgentSnapshot) -> bool {
    &&& d.agent_id == a.agent_id
    &&& d.agent_pool_id == a.agent_pool_id
    &&& d.max_concurrent == a.max_concurrent
    &&& d.current_load == a.current_load
    &&& d.reserved_load == a.reserved_load
    &&& d.reported_load == a.reported_load
    &&& d.stale == a.stale
    &&& d.last_heartbeat_secs == a.last_heartbeat_secs
    &&& d.bridges == a.bridges
    &&& d.labels == a.labels
}

/// The agent subsystem view: the epoch; the agents; their pools with the
/// capacity and load of their live agents and their queue lengths (see
/// `pool_summaries`); the number of agents; the jobs handed out and not
/// completed, those waiting in a queue (the total of `pending`), and those
/// running (the difference, none when more wait); and each job in flight
/// with its agent.
pub fn agent_status(
    server_epoch: u64,
    agents: Vec<AgentSnapshot>,
    pending: &Vec<(String, usize)>,
    in_flight: Vec<(String, String)>,
    outstanding_jobs: usize,
) -> (s: AgentStatusDto)
    requires
        forall|p: Seq<char>| pool_sums(agents@, p).0 <= u32::MAX && pool_sums(agents@, p).1 <= u32::MAX,
        queued_total(pending@) <= usize::MAX,
    ensures
        s.server_epoch == server_epoch,
        s.agent_count == agents@.len(),
        s.outstanding_jobs == outstanding_jobs,
        s.pending_jobs == queued_total(pending@),
        s.running_jobs == (if outstanding_jobs >= queued_total(pending@) { outstanding_jobs - queued_total(pending@) } else { 0 }),
        forall|i: int, j: int| 0 <= i < j < s.pools@.len() ==> s.pools@[i].agent_pool_id@ != s.pools@[j].agent_pool_id@,
        forall|i: int|
            0 <= i < s.pools@.len() ==> pool_has_live_agent(agents@, #[trigger] s.pools@[i].agent_pool_id@)
                && s.pools@[i].total_capacity == pool_sums(agents@, s.pools@[i].agent_pool_id@).0
                && s.pools@[i].total_load == pool_sums(agents@, s.pools@[i].agent_pool_id@).1
                && s.pools@[i].pending_jobs == pending_for(pending@, s.pools@[i].agent_pool_id@),
        forall|p: Seq<char>|
            pool_has_live_agent(agents@, p) ==> exists|i: int| 0 <= i < s.pools@.len() && #[trigger] s.pools@[i].agent_pool_id@ == p,
        s.agents@.len() == agents@.len(),
        forall|i: int| 0 <= i < agents@.len() ==> shows_agent(#[trigger] s.agents@[i], agents@[i]),
        s.in_flight_detail@.len() == in_flight@.len(),
        forall|i: int| 0 <= i < in_flight@.len() ==> shows_in_flight(#[trigger] s.in_flight_detail@[i], in_flight@[i]),
{
    let pools = pool_summaries(&agents, pending);
    let ghost pool_views = pools@;
    proof {
        assert forall|p: Seq<char>| pool_has_live_agent(agents@, p) implies exists|i: int|
            0 <= i < pool_views.len() && #[trigger] pool_views[i].agent_pool_id@ == p by {}
    }
    let pending_jobs = total_queued(pending);
    let running = running_jobs(outstanding_jobs, pending_jobs);
    let agent_count = agents.len();
    let ghost snaps = agents@;
    let mut views: Vec<AgentDto> = Vec::new();
    let mut rest = agents;
    proof {
        assert(rest@ =~= snaps.subrange(0, snaps.len() as int));
    }
    while rest.len() > 0
        invariant
            views@.len() + rest@.len() == snaps.len(),
            rest@ == snaps.subrange(views@.len() as int, snaps.len() as int),
            forall|i: int| 0 <= i < views@.len() ==> shows_agent(#[trigger] views@[i], snaps[i]),
        decreases rest@.len(),
    {
        let a = rest.remove(0);
        proof {
            assert(a == snaps[views@.len() as int]);
            assert(rest@ =~= snaps.subrange(views@.len() as int + 1, snaps.len() as int));
        }
        views.push(AgentDto {
            agent_id: a.agent_id,
            agent_pool_id: a.agent_pool_id,
            max_concurrent: a.max_concurrent,
            current_load: a.current_load,
            reserved_load: a.reserved_load,
            reported_load: a.reported_load,
            stale: a.stale,
            last_heartbeat_secs: a.last_heartbeat_secs,
            bridges: a.bridges,
            labels: a.labels,
        });
    }
    let ghost jobs = in_flight@;
    let mut detail: Vec<InFlightJobDto> = Vec::new();
    let mut left = in_flight;
    proof {
        assert(left@ =~= jobs.subrange(0, jobs.len() as int));
    }
    while left.len() > 0
        invariant
            detail@.len() + left@.len() == jobs.len(),
            left@ == jobs.subrange(detail@.len() as int, jobs.len() as int),
            forall|i: int| 0 <= i < detail@.len() ==> shows_in_flight(#[trigger] detail@[i], jobs[i]),
        decreases left@.len(),
    {
        let (job_id, agent_id) = left.remove(0);
        proof {
            assert((job_id, agent_id) == jobs[detail@.len() as int]);
            assert(left@ =~= jobs.subrange(detail@.len() as int + 1, jobs.len() as int));
        }
        detail.push(in_flight_dto(job_id, agent_id));
    }
    let ghost detail_views = detail@;
    let s = AgentStatusDto {
        server_epoch,
        agent_count,
        outstanding_jobs,
        pending_jobs,
        running_jobs: running,
        pools,
        agents: views,
        in_flight_detail: detail,
    };
    proof {
        assert forall|p: Seq<char>| pool_has_live_agent(agents@, p) implies exists|i: int|
            0 <= i < s.pools@.len() && #[trigger] s.pools@[i].agent_pool_id@ == p by {
            let i = choose|i: int| 0 <= i < pool_views.len() && #[trigger] pool_views[i].agent_pool_id@ == p;
            assert(s.pools@[i] == pool_views[i]);
        }
        assert forall|i: int| 0 <= i < in_flight@.len() implies shows_in_flight(#[trigger] s.in_flight_detail@[i], in_flight@[i]) by {
            assert(s.in_flight_detail@[i] == detail_views[i]);
        }
    }
    s
}

} // verus!
