//! One round of the fleet status sync: each scheduler snapshot is projected
//! with the worker's active episodes, changed observations are collected,
//! and workers that left the scheduler are kept as offline tombstones.
use crate::keyed_table::{holds_key, keys_distinct, KeyedTable};
use crate::scheduler::WorkerSnapshot;
use crate::state::ActiveEpisode;
use crate::text::str_eq;
use crate::worker_status::{
    observation_changed, project_worker_status, projected, same_strings, worker_observation_changed,
    WorkerStatusObservation, WorkerStatusSyncConfig,
};
use crate::messages::copy_strings;
use vstd::prelude::*;

verus! {

broadcast use vstd::string::group_string_axioms;

/// The episodes running on worker `w`, in the order given.
pub open spec fn roster_of(active: Seq<ActiveEpisode>, w: Seq<char>) -> Seq<String>
    decreases active.len(),
{
    if active.len() == 0 {
        Seq::empty()
    } else {
        let r = roster_of(active.drop_last(), w);
        if active.last().worker_id@ == w { r.push(active.last().episode_id) } else { r }
    }
}

/// The latest observation of worker `id` among the first `j` snapshots, else
/// the one known before the round.
pub open spec fn latest(
    snaps: Seq<WorkerSnapshot>,
    obs: Seq<WorkerStatusObservation>,
    known: Map<Seq<char>, WorkerStatusObservation>,
    id: Seq<char>,
    j: int,
) -> Option<WorkerStatusObservation>
    decreases j,
{
    if j <= 0 {
        if known.contains_key(id) { Some(known[id]) } else { None }
    } else if snaps[j - 1].worker_id@ == id {
        Some(obs[j - 1])
    } else {
        latest(snaps, obs, known, id, j - 1)
    }
}

/// Did a snapshot before the `i`-th name the same worker?
pub open spec fn named_before(snaps: Seq<WorkerSnapshot>, i: int) -> bool {
    exists|j: int| 0 <= j < i && snaps[j].worker_id@ == snaps[i].worker_id@
}

/// Is `o` the observation of the `i`-th snapshot: projected with the latest
/// observation of its worker as the previous one, and with the worker's
/// running episodes (handed to the first snapshot of a worker only)?
pub open spec fn observed_ok(
    snaps: Seq<WorkerSnapshot>,
    obs: Seq<WorkerStatusObservation>,
    known: Map<Seq<char>, WorkerStatusObservation>,
    active: Seq<ActiveEpisode>,
    c: WorkerStatusSyncConfig,
    now: i64,
    i: int,
) -> bool {
    projected(
        snaps[i],
        latest(snaps, obs, known, snaps[i].worker_id@, i),
        c,
        now,
        if named_before(snaps, i) { Seq::empty() } else { roster_of(active, snaps[i].worker_id@) },
        obs[i],
    )
}

/// The observations of the first `j` snapshots that are published: those of
/// a worker not observed before, or that changed.
pub open spec fn live_changes(
    snaps: Seq<WorkerSnapshot>,
    obs: Seq<WorkerStatusObservation>,
    known: Map<Seq<char>, WorkerStatusObservation>,
    j: int,
) -> Seq<WorkerStatusObservation>
    decreases j,
{
    if j <= 0 {
        Seq::empty()
    } else {
        let r = live_changes(snaps, obs, known, j - 1);
        match latest(snaps, obs, known, snaps[j - 1].worker_id@, j - 1) {
            Some(p) => if observation_changed(p, obs[j - 1]) { r.push(obs[j - 1]) } else { r },
            None => r.push(obs[j - 1]),
        }
    }
}

/// Is `o` already the tombstone of a worker that left (offline, unregistered)?
pub open spec fn is_tombstone(o: WorkerStatusObservation) -> bool {
    o.status@ == "OFFLINE"@ && o.status_reason@ == "UNREGISTERED"@
}

/// Is `t` the tombstone of `p` at time `now`: offline and unregistered since
/// `now`, without load or episodes, the rest kept?
pub open spec fn tombstone_of(p: WorkerStatusObservation, now: i64, t: WorkerStatusObservation) -> bool {
    &&& t.worker_id@ == p.worker_id@
    &&& is_tombstone(t)
    &&& t.status_changed_ts == now
    &&& t.last_heartbeat_ts == p.last_heartbeat_ts
    &&& t.current_load == 0
    &&& t.capacity == p.capacity
    &&& t.endpoint@ == p.endpoint@
    &&& same_strings(t.supported_env_types@, p.supported_env_types@)
    &&& t.active_episodes@.len() == 0
}

/// Does a snapshot of the round name worker `k`?
pub open spec fn in_snapshots(snaps: Seq<WorkerSnapshot>, k: Seq<char>) -> bool {
    exists|j: int| 0 <= j < snaps.len() && snaps[j].worker_id@ == k
}

/// Is worker `k` tombstoned in this round: known before, named by no
/// snapshot, and not already a tombstone?
pub open spec fn leaves(snaps: Seq<WorkerSnapshot>, known: Map<Seq<char>, WorkerStatusObservation>, k: Seq<char>) -> bool {
    known.contains_key(k) && !in_snapshots(snaps, k) && !is_tombstone(known[k])
}

/// What a map holds under `k`, if anything.
pub open spec fn held(m: Map<Seq<char>, WorkerStatusObservation>, k: Seq<char>) -> Option<WorkerStatusObservation> {
    if m.contains_key(k) { Some(m[k]) } else { None }
}

/// Two observations that an observer cannot tell apart.
pub open spec fn same_obs(a: WorkerStatusObservation, b: WorkerStatusObservation) -> bool {
    &&& a.worker_id@ == b.worker_id@
    &&& a.status@ == b.status@
    &&& a.status_reason@ == b.status_reason@
    &&& a.status_changed_ts == b.status_changed_ts
    &&& a.last_heartbeat_ts == b.last_heartbeat_ts
    &&& a.current_load == b.current_load
    &&& a.capacity == b.capacity
    &&& a.endpoint@ == b.endpoint@
    &&& a.supported_env_types@ == b.supported_env_types@
    &&& a.active_episodes@ == b.active_episodes@
}

/// Both absent, or both present and alike.
pub open spec fn agrees(a: Option<WorkerStatusObservation>, b: Option<WorkerStatusObservation>) -> bool {
    match (a, b) {
        (None, None) => true,
        (Some(x), Some(y)) => same_obs(x, y),
        _ => false,
    }
}

/// Two lists of observations that agree item by item.
pub open spec fn all_alike(a: Seq<WorkerStatusObservation>, b: Seq<WorkerStatusObservation>) -> bool {
    a.len() == b.len() && forall|x: int| 0 <= x < a.len() ==> same_obs(#[trigger] a[x], b[x])
}

/// `latest` reads only the first `j` observations.
proof fn lemma_latest_push(
    snaps: Seq<WorkerSnapshot>,
    obs: Seq<WorkerStatusObservation>,
    x: WorkerStatusObservation,
    known: Map<Seq<char>, WorkerStatusObservation>,
    id: Seq<char>,
    j: int,
)
    requires
        j <= obs.len(),
    ensures
        latest(snaps, obs.push(x), known, id, j) == latest(snaps, obs, known, id, j),
    decreases j,
{
    if j > 0 {
        lemma_latest_push(snaps, obs, x, known, id, j - 1);
    }
}

/// `live_changes` reads only the first `j` observations.
proof fn lemma_live_push(
    snaps: Seq<WorkerSnapshot>,
    obs: Seq<WorkerStatusObservation>,
    x: WorkerStatusObservation,
    known: Map<Seq<char>, WorkerStatusObservation>,
    j: int,
)
    requires
        j <= obs.len(),
    ensures
        live_changes(snaps, obs.push(x), known, j) == live_changes(snaps, obs, known, j),
    decreases j,
{
    if j > 0 {
        lemma_live_push(snaps, obs, x, known, j - 1);
        lemma_latest_push(snaps, obs, x, known, snaps[j - 1].worker_id@, j - 1);
    }
}

/// A worker that no snapshot among the first `j` names keeps what was known
/// of it; one that some snapshot names has an observation.
proof fn lemma_latest_unnamed(
    snaps: Seq<WorkerSnapshot>,
    obs: Seq<WorkerStatusObservation>,
    known: Map<Seq<char>, WorkerStatusObservation>,
    id: Seq<char>,
    j: int,
)
    requires
        0 <= j <= snaps.len(),
    ensures
        (forall|t: int| 0 <= t < j ==> snaps[t].worker_id@ != id) ==> latest(snaps, obs, known, id, j) == held(known, id),
        (exists|t: int| 0 <= t < j && snaps[t].worker_id@ == id) ==> latest(snaps, obs, known, id, j) is Some,
    decreases j,
{
    if j > 0 {
        lemma_latest_unnamed(snaps, obs, known, id, j - 1);
        if exists|t: int| 0 <= t < j && snaps[t].worker_id@ == id {
            if snaps[j - 1].worker_id@ != id {
                let t = choose|t: int| 0 <= t < j && snaps[t].worker_id@ == id;
                assert(0 <= t < j - 1);
            }
        }
    }
}

/// An exact copy of an observation.
fn copy_observation(o: &WorkerStatusObservation) -> (c: WorkerStatusObservation)
    ensures
        same_obs(c, *o),
{
    WorkerStatusObservation {
        worker_id: o.worker_id.clone(),
        status: o.status.clone(),
        status_reason: o.status_reason.clone(),
        status_changed_ts: o.status_changed_ts,
        last_heartbeat_ts: o.last_heartbeat_ts,
        current_load: o.current_load,
        capacity: o.capacity,
        endpoint: o.endpoint.clone(),
        supported_env_types: copy_strings(&o.supported_env_types),
        active_episodes: copy_strings(&o.active_episodes),
    }
}

/// Does a snapshot before the `i`-th name the same worker?
fn named_earlier(snaps: &Vec<WorkerSnapshot>, i: usize) -> (b: bool)
    requires
        i < snaps@.len(),
    ensures
        b == named_before(snaps@, i as int),
{
    let mut j: usize = 0;
    while j < i
        invariant
            i < snaps@.len(),
            j <= i,
            forall|t: int| 0 <= t < j ==> snaps@[t].worker_id@ != snaps@[i as int].worker_id@,
        decreases i - j,
    {
        if str_eq(snaps[j].worker_id.as_str(), snaps[i].worker_id.as_str()) {
            return true;
        }
        j = j + 1;
    }
    false
}

/// Does a snapshot name worker `k`?
fn named_in(snaps: &Vec<WorkerSnapshot>, k: &str) -> (b: bool)
    ensures
        b == in_snapshots(snaps@, k@),
{
    let mut j: usize = 0;
    while j < snaps.len()
        invariant
            j <= snaps@.len(),
            forall|t: int| 0 <= t < j ==> snaps@[t].worker_id@ != k@,
        decreases snaps@.len() - j,
    {
        if str_eq(snaps[j].worker_id.as_str(), k) {
            return true;
        }
        j = j + 1;
    }
    false
}

/// The episodes running on worker `w`, in the order given.
fn roster(active: &Vec<ActiveEpisode>, w: &str) -> (r: Vec<String>)
    ensures
        r@ == roster_of(active@, w@),
{
    let mut r: Vec<String> = Vec::new();
    let mut j: usize = 0;
    while j < active.len()
        invariant
            j <= active@.len(),
            r@ == roster_of(active@.take(j as int), w@),
        decreases active@.len() - j,
    {
        assert(active@.take(j as int + 1).drop_last() =~= active@.take(j as int));
        if str_eq(active[j].worker_id.as_str(), w) {
            r.push(active[j].episode_id.clone());
        }
        j = j + 1;
    }
    assert(active@.take(active@.len() as int) =~= active@);
    r
}

/// Is `o` the tombstone of a worker that left?
fn is_departed(o: &WorkerStatusObservation) -> (b: bool)
    ensures
        b == is_tombstone(*o),
{
    str_eq(o.status.as_str(), "OFFLINE") && str_eq(o.status_reason.as_str(), "UNREGISTERED")
}

/// The tombstone of `p` at time `now`.
fn tombstone(p: &WorkerStatusObservation, now: i64) -> (t: WorkerStatusObservation)
    ensures
        tombstone_of(*p, now, t),
{
    WorkerStatusObservation {
        worker_id: p.worker_id.clone(),
        status: "OFFLINE".to_string(),
        status_reason: "UNREGISTERED".to_string(),
        status_changed_ts: now,
        last_heartbeat_ts: p.last_heartbeat_ts,
        current_load: 0,
        capacity: p.capacity,
        endpoint: p.endpoint.clone(),
        supported_env_types: copy_strings(&p.supported_env_types),
        active_episodes: Vec::new(),
    }
}

/// What a round gives: each snapshot's observation, the observations to
/// publish, and whether to publish them.
#[derive(Debug)]
pub struct FleetRound {
    pub observed: Vec<WorkerStatusObservation>,
    pub changed: Vec<WorkerStatusObservation>,
    pub emit: bool,
}

/// The observations of the worker fleet kept between rounds.
#[derive(Debug)]
pub struct FleetTracker {
    known: KeyedTable<WorkerStatusObservation>,
    first_snapshot: bool,
}

impl FleetTracker {
    /// The latest observation of each worker, by worker id.
    pub closed spec fn known_spec(&self) -> Map<Seq<char>, WorkerStatusObservation> {
        self.known@
    }

    /// Has no round published yet?
    pub closed spec fn first_spec(&self) -> bool {
        self.first_snapshot
    }

    /// Each worker's latest observation names that worker.
    pub closed spec fn wf(&self) -> bool {
        forall|k: Seq<char>| #[trigger] self.known@.contains_key(k) ==> self.known@[k].worker_id@ == k
    }

    /// A tracker that knows no worker; its first round always publishes.
    pub fn new() -> (t: Self)
        ensures
            t.wf(),
            t.known_spec() == Map::<Seq<char>, WorkerStatusObservation>::empty(),
            t.first_spec(),
    {
        FleetTracker { known: KeyedTable::new(), first_snapshot: true }
    }

    /// Has no round published yet?
    pub fn is_first(&self) -> (b: bool)
        ensures
            b == self.first_spec(),
    {
        self.first_snapshot
    }

    /// The latest observation of worker `id`, if it was ever observed.
    pub fn observation_of(&self, id: &str) -> (r: Option<&WorkerStatusObservation>)
        ensures
            match r {
                Some(o) => self.known_spec().contains_key(id@) && self.known_spec()[id@] == *o,
                None => !self.known_spec().contains_key(id@),
            },
    {
        self.known.get(id)
    }

    /// Observes each snapshot in turn; the latest observation of each worker
    /// becomes what is known of it.
    fn observe(
        &mut self,
        snapshots: &Vec<WorkerSnapshot>,
        active: &Vec<ActiveEpisode>,
        config: WorkerStatusSyncConfig,
        now: i64,
    ) -> (res: (Vec<WorkerStatusObservation>, Vec<WorkerStatusObservation>))
        requires
            old(self).wf(),
        ensures
            final(self).wf(),
            res.0@.len() == snapshots@.len(),
            forall|t: int|
                0 <= t < snapshots@.len() ==> observed_ok(snapshots@, res.0@, old(self).known@, active@, config, now, t),
            all_alike(res.1@, live_changes(snapshots@, res.0@, old(self).known@, snapshots@.len() as int)),
            forall|k: Seq<char>|
                agrees(#[trigger] held(final(self).known@, k), latest(snapshots@, res.0@, old(self).known@, k, snapshots@.len() as int)),
            final(self).first_snapshot == old(self).first_snapshot,
    {
        let ghost k0 = self.known@;
        let mut observed: Vec<WorkerStatusObservation> = Vec::new();
        let mut changed: Vec<WorkerStatusObservation> = Vec::new();
        let mut i: usize = 0;
        proof {
            assert forall|k: Seq<char>| agrees(#[trigger] held(self.known@, k), latest(snapshots@, observed@, k0, k, 0)) by {}
        }
        while i < snapshots.len()
            invariant
                i <= snapshots@.len(),
                observed@.len() == i,
                self.first_snapshot == old(self).first_snapshot,
                k0 == old(self).known@,
                self.wf(),
                forall|t: int| 0 <= t < i ==> observed_ok(snapshots@, observed@, k0, active@, config, now, t),
                all_alike(changed@, live_changes(snapshots@, observed@, k0, i as int)),
                forall|k: Seq<char>| agrees(#[trigger] held(self.known@, k), latest(snapshots@, observed@, k0, k, i as int)),
            decreases snapshots@.len() - i,
        {
            let snap = &snapshots[i];
            let earlier = named_earlier(snapshots, i);
            let episodes = if earlier { Vec::new() } else { roster(active, snap.worker_id.as_str()) };
            let ghost prev_spec = held(self.known@, snap.worker_id@);
            let ghost late = latest(snapshots@, observed@, k0, snap.worker_id@, i as int);
            let o;
            let fresh;
            {
                let previous = self.known.get(snap.worker_id.as_str());
                o = project_worker_status(snap, previous, config, now, episodes);
                fresh = match previous {
                    Some(p) => worker_observation_changed(p, &o),
                    None => true,
                };
            }
            let c = copy_observation(&o);
            proof {
                assert(agrees(prev_spec, late));
                lemma_latest_push(snapshots@, observed@, c, k0, snap.worker_id@, i as int);
                lemma_live_push(snapshots@, observed@, c, k0, i as int);
                assert forall|t: int| 0 <= t < i implies observed_ok(snapshots@, observed@.push(c), k0, active@, config, now, t) by {
                    lemma_latest_push(snapshots@, observed@, c, k0, snapshots@[t].worker_id@, t);
                    assert(observed@.push(c)[t] == observed@[t]);
                    assert(observed_ok(snapshots@, observed@, k0, active@, config, now, t));
                }
                assert(observed@.push(c)[i as int] == c);
                assert(observed_ok(snapshots@, observed@.push(c), k0, active@, config, now, i as int));
            }
            if fresh {
                changed.push(copy_observation(&o));
            }
            let ghost obs_before = observed@;
            observed.push(c);
            let ghost known_before = self.known@;
            let key = o.worker_id.clone();
            self.known.insert(key, o);
            proof {
                assert forall|k: Seq<char>| #[trigger] self.known@.contains_key(k) implies self.known@[k].worker_id@ == k by {
                    if k != key@ {
                        assert(known_before.contains_key(k));
                    }
                }
                assert(observed@ == obs_before.push(c));
                assert forall|k: Seq<char>| agrees(#[trigger] held(self.known@, k), latest(snapshots@, observed@, k0, k, i + 1)) by {
                    assert(agrees(held(known_before, k), latest(snapshots@, obs_before, k0, k, i as int)));
                    lemma_latest_push(snapshots@, obs_before, c, k0, k, i as int);
                }
            }
            i = i + 1;
        }
        (observed, changed)
    }

    /// The tombstones of the known workers that no snapshot names and that
    /// are not tombstones already, each worker once.
    fn departed(&self, snapshots: &Vec<WorkerSnapshot>, now: i64) -> (tombs: Vec<WorkerStatusObservation>)
        requires
            self.wf(),
        ensures
            forall|y: int|
                0 <= y < tombs@.len() ==> self.known@.contains_key(#[trigger] tombs@[y].worker_id@)
                    && !in_snapshots(snapshots@, tombs@[y].worker_id@)
                    && !is_tombstone(self.known@[tombs@[y].worker_id@])
                    && tombstone_of(self.known@[tombs@[y].worker_id@], now, tombs@[y]),
            forall|y: int, z: int|
                0 <= y < z < tombs@.len() ==> #[trigger] tombs@[y].worker_id@ != #[trigger] tombs@[z].worker_id@,
            forall|k: Seq<char>|
                self.known@.contains_key(k) && !in_snapshots(snapshots@, k) && !is_tombstone(self.known@[k])
                    ==> exists|y: int| 0 <= y < tombs@.len() && #[trigger] tombs@[y].worker_id@ == k,
    {
        let n = self.known.len();
        let ghost rows = self.known.rows();
        let ghost kn = self.known@;
        let mut tombs: Vec<WorkerStatusObservation> = Vec::new();
        let ghost mut from: Seq<int> = Seq::empty();
        let mut x: usize = 0;
        proof {
            assert forall|i: int| 0 <= i < rows.len() implies #[trigger] rows[i].1.worker_id@ == rows[i].0 by {
                assert(kn.contains_key(rows[i].0));
            }
        }
        while x < n
            invariant
                forall|i: int| 0 <= i < rows.len() ==> #[trigger] rows[i].1.worker_id@ == rows[i].0,
                n == rows.len(),
                rows == self.known.rows(),
                kn == self.known@,
                keys_distinct(rows),
                x <= n,
                from.len() == tombs@.len(),
                forall|y: int|
                    0 <= y < from.len() ==> 0 <= #[trigger] from[y] < x && tombs@[y].worker_id@ == rows[from[y]].0
                        && !in_snapshots(snapshots@, rows[from[y]].0) && !is_tombstone(rows[from[y]].1)
                        && tombstone_of(rows[from[y]].1, now, tombs@[y]),
                forall|y: int, z: int| 0 <= y < z < from.len() ==> #[trigger] from[y] < #[trigger] from[z],
                forall|i: int|
                    0 <= i < x && !in_snapshots(snapshots@, rows[i].0) && !is_tombstone(rows[i].1) ==> exists|y: int|
                        0 <= y < from.len() && #[trigger] from[y] == i,
            decreases n - x,
        {
            let (key, value) = self.known.entry_at(x);
            let ghost old_from = from;
            let ghost old_tombs = tombs@;
            if !named_in(snapshots, key.as_str()) && !is_departed(value) {
                let t = tombstone(value, now);
                tombs.push(t);
                proof {
                    from = from.push(x as int);
                    assert forall|y: int| 0 <= y < from.len() implies 0 <= #[trigger] from[y] < x + 1
                        && tombs@[y].worker_id@ == rows[from[y]].0 && !in_snapshots(snapshots@, rows[from[y]].0)
                        && !is_tombstone(rows[from[y]].1) && tombstone_of(rows[from[y]].1, now, tombs@[y]) by {
                        if y < old_from.len() {
                            assert(from[y] == old_from[y]);
                            assert(tombs@[y] == old_tombs[y]);
                        }
                    }
                    assert forall|i: int|
                        0 <= i < x + 1 && !in_snapshots(snapshots@, rows[i].0) && !is_tombstone(rows[i].1) implies exists|y: int|
                            0 <= y < from.len() && #[trigger] from[y] == i by {
                        if i < x {
                            let y = choose|y: int| 0 <= y < old_from.len() && #[trigger] old_from[y] == i;
                            assert(from[y] == old_from[y]);
                        } else {
                            assert(from[old_from.len() as int] == i);
                        }
                    }
                }
            }
            x = x + 1;
        }
        proof {
            assert forall|y: int| 0 <= y < tombs@.len() implies self.known@.contains_key(#[trigger] tombs@[y].worker_id@)
                && !in_snapshots(snapshots@, tombs@[y].worker_id@) && !is_tombstone(self.known@[tombs@[y].worker_id@])
                && tombstone_of(self.known@[tombs@[y].worker_id@], now, tombs@[y]) by {
                assert(kn.contains_key(rows[from[y]].0));
            }
            assert forall|y: int, z: int| 0 <= y < z < tombs@.len() implies #[trigger] tombs@[y].worker_id@
                != #[trigger] tombs@[z].worker_id@ by {
                assert(from[y] < from[z]);
            }
            assert forall|k: Seq<char>|
                self.known@.contains_key(k) && !in_snapshots(snapshots@, k) && !is_tombstone(self.known@[k]) implies exists|y: int|
                    0 <= y < tombs@.len() && #[trigger] tombs@[y].worker_id@ == k by {
                assert(holds_key(rows, k));
                let i = choose|i: int| 0 <= i < rows.len() && rows[i].0 == k;
                assert(kn.contains_key(rows[i].0));
                let y = choose|y: int| 0 <= y < from.len() && #[trigger] from[y] == i;
                assert(tombs@[y].worker_id@ == k);
            }
        }
        tombs
    }

    /// Publishes each tombstone and makes it the worker's latest observation.
    fn bury(&mut self, tombs: &Vec<WorkerStatusObservation>, changed: &mut Vec<WorkerStatusObservation>)
        requires
            old(self).wf(),
            forall|y: int| 0 <= y < tombs@.len() ==> old(self).known@.contains_key(#[trigger] tombs@[y].worker_id@),
            forall|y: int, z: int|
                0 <= y < z < tombs@.len() ==> #[trigger] tombs@[y].worker_id@ != #[trigger] tombs@[z].worker_id@,
        ensures
            final(self).wf(),
            final(changed)@.len() == old(changed)@.len() + tombs@.len(),
            forall|x: int| 0 <= x < old(changed)@.len() ==> #[trigger] final(changed)@[x] == old(changed)@[x],
            forall|y: int| 0 <= y < tombs@.len() ==> same_obs(#[trigger] final(changed)@[old(changed)@.len() + y], tombs@[y]),
            final(self).first_snapshot == old(self).first_snapshot,
            forall|k: Seq<char>| #[trigger] final(self).known@.contains_key(k) == old(self).known@.contains_key(k),
            forall|y: int| 0 <= y < tombs@.len() ==> same_obs(final(self).known@[#[trigger] tombs@[y].worker_id@], tombs@[y]),
            forall|k: Seq<char>|
                (forall|y: int| 0 <= y < tombs@.len() ==> #[trigger] tombs@[y].worker_id@ != k) ==> #[trigger] final(self).known@[k]
                    == old(self).known@[k],
    {
        let ghost k0 = self.known@;
        let ghost c0 = changed@;
        let mut y: usize = 0;
        while y < tombs.len()
            invariant
                y <= tombs@.len(),
                k0 == old(self).known@,
                c0 == old(changed)@,
                self.wf(),
                self.first_snapshot == old(self).first_snapshot,
                forall|a: int| 0 <= a < tombs@.len() ==> k0.contains_key(#[trigger] tombs@[a].worker_id@),
                forall|a: int, b: int| 0 <= a < b < tombs@.len() ==> #[trigger] tombs@[a].worker_id@ != #[trigger] tombs@[b].worker_id@,
                changed@.len() == c0.len() + y,
                forall|x: int| 0 <= x < c0.len() ==> #[trigger] changed@[x] == c0[x],
                forall|a: int| 0 <= a < y ==> same_obs(#[trigger] changed@[c0.len() + a], tombs@[a]),
                forall|k: Seq<char>| #[trigger] self.known@.contains_key(k) == k0.contains_key(k),
                forall|a: int| 0 <= a < y ==> same_obs(self.known@[#[trigger] tombs@[a].worker_id@], tombs@[a]),
                forall|k: Seq<char>|
                    (forall|a: int| 0 <= a < y ==> #[trigger] tombs@[a].worker_id@ != k) ==> #[trigger] self.known@[k] == k0[k],
            decreases tombs@.len() - y,
        {
            let ghost cb = changed@;
            changed.push(copy_observation(&tombs[y]));
            let t = copy_observation(&tombs[y]);
            let ghost before = self.known@;
            let key = t.worker_id.clone();
            self.known.insert(key, t);
            proof {
                assert forall|k: Seq<char>| #[trigger] self.known@.contains_key(k) implies self.known@[k].worker_id@ == k by {
                    if k != key@ {
                        assert(before.contains_key(k));
                    }
                }
                assert forall|x: int| 0 <= x < c0.len() implies #[trigger] changed@[x] == c0[x] by {
                    assert(changed@[x] == cb[x]);
                }
                assert forall|a: int| 0 <= a < y + 1 implies same_obs(#[trigger] changed@[c0.len() + a], tombs@[a]) by {
                    if a < y {
                        assert(changed@[c0.len() + a] == cb[c0.len() + a]);
                    }
                }
                assert forall|a: int| 0 <= a < y + 1 implies same_obs(self.known@[#[trigger] tombs@[a].worker_id@], tombs@[a]) by {
                    if a < y {
                        assert(tombs@[a].worker_id@ != tombs@[y as int].worker_id@);
                    }
                }
                assert forall|k: Seq<char>| (forall|a: int| 0 <= a < y + 1 ==> #[trigger] tombs@[a].worker_id@ != k) implies #[trigger] self.known@[k] == k0[k] by {
                    assert(tombs@[y as int].worker_id@ != k);
                }
            }
            y = y + 1;
        }
    }

    /// One round at time `now`: each snapshot is observed (see
    /// `observed_ok`); published are the new or changed observations in
    /// snapshot order (see `live_changes`), then one tombstone for each
    /// worker that left (see `leaves`, `tombstone_of`); the round publishes
    /// when it is the first or something changed. Every observation and
    /// tombstone becomes the worker's latest, so afterwards every known
    /// worker that no snapshot names is a tombstone.
    pub fn sync_round(
        &mut self,
        snapshots: &Vec<WorkerSnapshot>,
        active: &Vec<ActiveEpisode>,
        config: WorkerStatusSyncConfig,
        now: i64,
    ) -> (r: FleetRound)
        requires
            old(self).wf(),
        ensures
            final(self).wf(),
            r.observed@.len() == snapshots@.len(),
            forall|i: int|
                0 <= i < snapshots@.len() ==> observed_ok(snapshots@, r.observed@, old(self).known_spec(), active@, config, now, i),
            ({
                let live = live_changes(snapshots@, r.observed@, old(self).known_spec(), snapshots@.len() as int);
                &&& r.changed@.len() >= live.len()
                &&& forall|x: int| 0 <= x < live.len() ==> same_obs(#[trigger] r.changed@[x], live[x])
                &&& forall|x: int|
                    live.len() <= x < r.changed@.len() ==> leaves(snapshots@, old(self).known_spec(), #[trigger] r.changed@[x].worker_id@)
                        && tombstone_of(old(self).known_spec()[r.changed@[x].worker_id@], now, r.changed@[x])
                &&& forall|x: int, y: int|
                    live.len() <= x < y < r.changed@.len() ==> #[trigger] r.changed@[x].worker_id@ != #[trigger] r.changed@[y].worker_id@
                &&& forall|k: Seq<char>|
                    leaves(snapshots@, old(self).known_spec(), k) ==> exists|x: int|
                        live.len() <= x < r.changed@.len() && #[trigger] r.changed@[x].worker_id@ == k
            }),
            r.emit == (old(self).first_spec() || r.changed@.len() > 0),
            !final(self).first_spec(),
            forall|k: Seq<char>|
                #![trigger final(self).known_spec().contains_key(k)]
                final(self).known_spec().contains_key(k) <==> (old(self).known_spec().contains_key(k) || in_snapshots(
                    snapshots@,
                    k,
                )),
            forall|k: Seq<char>|
                in_snapshots(snapshots@, k) ==> agrees(
                    Some(#[trigger] final(self).known_spec()[k]),
                    latest(snapshots@, r.observed@, old(self).known_spec(), k, snapshots@.len() as int),
                ),
            forall|k: Seq<char>|
                #![trigger final(self).known_spec()[k]]
                old(self).known_spec().contains_key(k) && !in_snapshots(snapshots@, k) ==> if leaves(
                    snapshots@,
                    old(self).known_spec(),
                    k,
                ) {
                    tombstone_of(old(self).known_spec()[k], now, final(self).known_spec()[k])
                } else {
                    same_obs(final(self).known_spec()[k], old(self).known_spec()[k])
                },
            forall|k: Seq<char>|
                final(self).known_spec().contains_key(k) && !in_snapshots(snapshots@, k) ==> is_tombstone(
                    #[trigger] final(self).known_spec()[k],
                ),
    {
        let ghost k0 = self.known@;
        let (observed, mut changed) = self.observe(snapshots, active, config, now);
        let ghost kn = self.known@;
        let ghost n = snapshots@.len() as int;
        proof {
            assert forall|k: Seq<char>| !in_snapshots(snapshots@, k) implies agrees(#[trigger] held(kn, k), held(k0, k)) by {
                assert(agrees(held(kn, k), latest(snapshots@, observed@, k0, k, n)));
                lemma_latest_unnamed(snapshots@, observed@, k0, k, n);
            }
        }
        let tombs = self.departed(snapshots, now);
        let ghost live = changed@;
        self.bury(&tombs, &mut changed);
        let emit = self.first_snapshot || changed.len() > 0;
        self.first_snapshot = false;
        proof {
            let kf = self.known@;
            let lv = live_changes(snapshots@, observed@, k0, n);
            assert forall|x: int| 0 <= x < lv.len() implies same_obs(#[trigger] changed@[x], lv[x]) by {
                assert(changed@[x] == live[x]);
                assert(same_obs(live[x], lv[x]));
            }
            assert forall|x: int| lv.len() <= x < changed@.len() implies leaves(snapshots@, k0, #[trigger] changed@[x].worker_id@)
                && tombstone_of(k0[changed@[x].worker_id@], now, changed@[x]) by {
                let y = x - live.len();
                assert(same_obs(changed@[live.len() + y], tombs@[y]));
                assert(agrees(held(kn, tombs@[y].worker_id@), held(k0, tombs@[y].worker_id@)));
            }
            assert forall|x: int, y: int| lv.len() <= x < y < changed@.len() implies #[trigger] changed@[x].worker_id@
                != #[trigger] changed@[y].worker_id@ by {
                assert(same_obs(changed@[live.len() + (x - live.len())], tombs@[x - live.len()]));
                assert(same_obs(changed@[live.len() + (y - live.len())], tombs@[y - live.len()]));
            }
            assert forall|k: Seq<char>| leaves(snapshots@, k0, k) implies exists|x: int|
                lv.len() <= x < changed@.len() && #[trigger] changed@[x].worker_id@ == k by {
                assert(agrees(held(kn, k), held(k0, k)));
                let y = choose|y: int| 0 <= y < tombs@.len() && #[trigger] tombs@[y].worker_id@ == k;
                assert(same_obs(changed@[live.len() + y], tombs@[y]));
            }
            assert forall|k: Seq<char>| #![trigger kf.contains_key(k)]
                kf.contains_key(k) <==> (k0.contains_key(k) || in_snapshots(snapshots@, k)) by {
                assert(agrees(held(kn, k), latest(snapshots@, observed@, k0, k, n)));
                lemma_latest_unnamed(snapshots@, observed@, k0, k, n);
                if in_snapshots(snapshots@, k) {
                    let t = choose|t: int| 0 <= t < n && snapshots@[t].worker_id@ == k;
                    assert(0 <= t < n && snapshots@[t].worker_id@ == k);
                }
            }
            assert forall|k: Seq<char>| in_snapshots(snapshots@, k) implies agrees(
                Some(#[trigger] kf[k]),
                latest(snapshots@, observed@, k0, k, n),
            ) by {
                assert(agrees(held(kn, k), latest(snapshots@, observed@, k0, k, n)));
                lemma_latest_unnamed(snapshots@, observed@, k0, k, n);
                let t = choose|t: int| 0 <= t < n && snapshots@[t].worker_id@ == k;
                assert(0 <= t < n && snapshots@[t].worker_id@ == k);
                if exists|y: int| 0 <= y < tombs@.len() && #[trigger] tombs@[y].worker_id@ == k {
                    let y = choose|y: int| 0 <= y < tombs@.len() && #[trigger] tombs@[y].worker_id@ == k;
                    assert(!in_snapshots(snapshots@, tombs@[y].worker_id@));
                }
            }
            assert forall|k: Seq<char>| #![trigger kf[k]]
                k0.contains_key(k) && !in_snapshots(snapshots@, k) implies if leaves(snapshots@, k0, k) {
                    tombstone_of(k0[k], now, kf[k])
                } else {
                    same_obs(kf[k], k0[k])
                } by {
                assert(agrees(held(kn, k), held(k0, k)));
                if leaves(snapshots@, k0, k) {
                    let y = choose|y: int| 0 <= y < tombs@.len() && #[trigger] tombs@[y].worker_id@ == k;
                    assert(same_obs(kf[tombs@[y].worker_id@], tombs@[y]));
                } else {
                    if exists|y: int| 0 <= y < tombs@.len() && #[trigger] tombs@[y].worker_id@ == k {
                        let y = choose|y: int| 0 <= y < tombs@.len() && #[trigger] tombs@[y].worker_id@ == k;
                        assert(!is_tombstone(kn[tombs@[y].worker_id@]));
                    }
                }
            }
        }
        FleetRound { observed, changed, emit }
    }
}

} // verus!
