//! Read-side views of a run's merged state: the summary listed for each run,
//! and the run's workers seen through the server's current fleet.
use crate::chain_state::{strs, tree_models, ChainModel, ChainState, EpisodeModel, StageModel, TreeNodeModel, WorkerModel};
use crate::keyed_table::{holds_key, keys_distinct, keys_where, rows_where, KeyedTable};
use crate::execution_backend::opt_view;
use crate::messages::copy_strings;
use crate::obs::orphan_run_id;
use crate::obs_merge::{fresh_worker, fresh_worker_view, MergeEngine};
use crate::obs_views::{EpisodeView, RunSummary, WorkerView};
use crate::text::{lemma_text_lt_order, str_eq, str_lt, text_lt};
use vstd::prelude::*;

verus! {

broadcast use {vstd::string::group_string_axioms, vstd::seq_lib::group_to_multiset_ensures};

/// Is `t` when the run started: the earliest of its update time and the
/// positive source times of its stages and episodes?
pub open spec fn started_at_ok(m: ChainModel, t: i64) -> bool {
    &&& t <= m.updated_at
    &&& forall|i: int| 0 <= i < m.stages.len() && m.stages[i].source_ts > 0 ==> t <= #[trigger] m.stages[i].source_ts
    &&& forall|k: Seq<char>|
        #[trigger] m.episodes.contains_key(k) && m.episodes[k].last_source_ts > 0 ==> t <= m.episodes[k].last_source_ts
    &&& (t == m.updated_at || (exists|i: int|
        0 <= i < m.stages.len() && m.stages[i].source_ts > 0 && t == #[trigger] m.stages[i].source_ts) || (exists|
        k: Seq<char>,
    | #[trigger] m.episodes.contains_key(k) && m.episodes[k].last_source_ts > 0 && t == m.episodes[k].last_source_ts))
}

/// Is stage `i` the first with node id `id`?
pub open spec fn first_with_id(stages: Seq<StageModel>, id: Seq<char>, i: int) -> bool {
    0 <= i < stages.len() && stages[i].node_id == id && forall|j: int| 0 <= j < i ==> #[trigger] stages[j].node_id != id
}

/// Is stage `i` the first active one?
pub open spec fn first_active(stages: Seq<StageModel>, i: int) -> bool {
    0 <= i < stages.len() && stages[i].status == "ACTIVE"@ && forall|j: int| 0 <= j < i ==> #[trigger] stages[j].status
        != "ACTIVE"@
}

/// The stage a run shows as current, with its label: the workflow's
/// active stage, else the first active stage, else none (both empty).
pub open spec fn shown_stage(stages: Seq<StageModel>, active_id: Seq<char>, stage: Seq<char>, label: Seq<char>) -> bool {
    if exists|i: int| first_with_id(stages, active_id, i) {
        exists|i: int| first_with_id(stages, active_id, i) && stage == stages[i].stage && label == stages[i].label
    } else if exists|i: int| first_active(stages, i) {
        exists|i: int| first_active(stages, i) && stage == stages[i].stage && label == stages[i].label
    } else {
        stage == Seq::<char>::empty() && label == Seq::<char>::empty()
    }
}

/// Episodes counted as active.
pub open spec fn model_active() -> spec_fn(EpisodeModel) -> bool {
    |e: EpisodeModel| e.status == "ACTIVE"@
}

/// Episodes counted as done (done or closed).
pub open spec fn model_done() -> spec_fn(EpisodeModel) -> bool {
    |e: EpisodeModel| e.status == "DONE"@ || e.status == "CLOSED"@
}

/// Episodes counted as failed.
pub open spec fn model_failed() -> spec_fn(EpisodeModel) -> bool {
    |e: EpisodeModel| e.status == "FAILED"@
}

/// A condition on episode models read on the episodes themselves.
pub open spec fn on_views(p: spec_fn(EpisodeModel) -> bool) -> spec_fn(EpisodeView) -> bool {
    |e: EpisodeView| p(e@)
}

/// Is `r` the summary of run state `m`? Its fields copy the run's, it
/// started at the earliest time the run shows (`started_at_ok`), shows the
/// run's current stage (`shown_stage`), and counts the run's episodes (all,
/// active, done, failed) and workers.
pub open spec fn summary_of(m: ChainModel, r: RunSummary) -> bool {
    &&& r.training_run_id@ == m.training_run_id
    &&& r.run_state@ == m.run_state
    &&& r.run_status@ == m.run_status
    &&& r.terminal_reason@ == m.terminal_reason
    &&& r.last_heartbeat_ts == m.last_heartbeat_ts
    &&& r.heartbeat_state@ == m.heartbeat_state
    &&& r.updated_at == m.updated_at
    &&& r.global_event_seq == m.global_event_seq
    &&& r.planned_episode_total == m.planned_episode_total
    &&& r.planned_step_total == m.planned_step_total
    &&& started_at_ok(m, r.started_at)
    &&& shown_stage(m.stages, m.active_node_id, r.active_stage@, r.active_stage_label@)
    &&& r.episode_total == m.episodes.dom().len()
    &&& r.episode_active == keys_where(m.episodes, model_active()).len()
    &&& r.episode_done == keys_where(m.episodes, model_done()).len()
    &&& r.episode_failed == keys_where(m.episodes, model_failed()).len()
    &&& r.worker_total == m.workers.dom().len()
}

/// The earliest time a run shows.
fn started_at(state: &ChainState) -> (t: i64)
    ensures
        started_at_ok(state@, t),
{
    let ghost m = state@;
    let nodes = &state.workflow.nodes;
    let mut t = state.updated_at;
    let mut i: usize = 0;
    while i < nodes.len()
        invariant
            i <= nodes@.len(),
            m == state@,
            nodes@ == state.workflow.nodes@,
            t <= m.updated_at,
            forall|j: int| 0 <= j < i && m.stages[j].source_ts > 0 ==> t <= #[trigger] m.stages[j].source_ts,
            t == m.updated_at || exists|j: int| 0 <= j < i && m.stages[j].source_ts > 0 && t == #[trigger] m.stages[j].source_ts,
        decreases nodes@.len() - i,
    {
        let ts = nodes[i].source_ts;
        proof {
            assert(m.stages[i as int].source_ts == ts);
        }
        if ts > 0 && ts < t {
            t = ts;
        }
        i = i + 1;
    }
    let n = state.episodes.len();
    let mut j: usize = 0;
    while j < n
        invariant
            j <= n,
            m == state@,
            n == state.episodes.rows().len(),
            forall|x: int|
                0 <= x < state.episodes.rows().len() ==> #[trigger] state.episodes@.contains_key(state.episodes.rows()[x].0)
                    && state.episodes@[state.episodes.rows()[x].0] == state.episodes.rows()[x].1,
            forall|k: Seq<char>| #[trigger] state.episodes@.contains_key(k) <==> crate::keyed_table::holds_key(state.episodes.rows(), k),
            t <= m.updated_at,
            forall|x: int| 0 <= x < m.stages.len() && m.stages[x].source_ts > 0 ==> t <= #[trigger] m.stages[x].source_ts,
            forall|x: int|
                0 <= x < j && state.episodes.rows()[x].1.last_source_ts > 0 ==> t <= #[trigger] state.episodes.rows()[x].1.last_source_ts,
            (t == m.updated_at || (exists|x: int| 0 <= x < m.stages.len() && m.stages[x].source_ts > 0 && t == #[trigger] m.stages[x].source_ts)
                || (exists|x: int|
                0 <= x < j && state.episodes.rows()[x].1.last_source_ts > 0 && t == #[trigger] state.episodes.rows()[x].1.last_source_ts)),
        decreases n - j,
    {
        let (_k, e) = state.episodes.entry_at(j);
        let ts = e.last_source_ts;
        if ts > 0 && ts < t {
            t = ts;
        }
        j = j + 1;
    }
    proof {
        let rows = state.episodes.rows();
        assert forall|k: Seq<char>| #[trigger] m.episodes.contains_key(k) && m.episodes[k].last_source_ts > 0 implies t
            <= m.episodes[k].last_source_ts by {
            let x = choose|x: int| 0 <= x < rows.len() && rows[x].0 == k;
            assert(state.episodes@[rows[x].0] == rows[x].1);
        }
        if !(t == m.updated_at) && !(exists|x: int|
            0 <= x < m.stages.len() && m.stages[x].source_ts > 0 && t == #[trigger] m.stages[x].source_ts) {
            let x = choose|x: int| 0 <= x < rows.len() && rows[x].1.last_source_ts > 0 && t == #[trigger] rows[x].1.last_source_ts;
            let k = rows[x].0;
            assert(m.episodes.contains_key(k));
            assert(m.episodes[k].last_source_ts == t);
        }
    }
    t
}

/// The position of the stage a run shows as current: the workflow's active
/// stage, else the first active stage.
fn current_stage_index(state: &ChainState) -> (r: Option<usize>)
    ensures
        match r {
            Some(i) => (first_with_id(state@.stages, state@.active_node_id, i as int)) || (!(exists|j: int|
                first_with_id(state@.stages, state@.active_node_id, j)) && first_active(state@.stages, i as int)),
            None => !(exists|j: int| first_with_id(state@.stages, state@.active_node_id, j)) && !(exists|j: int|
                first_active(state@.stages, j)),
        },
{
    let ghost m = state@;
    let nodes = &state.workflow.nodes;
    let id = state.workflow.active_node_id.as_str();
    let mut i: usize = 0;
    while i < nodes.len()
        invariant
            i <= nodes@.len(),
            m == state@,
            nodes@ == state.workflow.nodes@,
            id@ == m.active_node_id,
            forall|j: int| 0 <= j < i ==> #[trigger] m.stages[j].node_id != id@,
        decreases nodes@.len() - i,
    {
        if str_eq(nodes[i].node_id.as_str(), id) {
            proof {
                assert(first_with_id(m.stages, id@, i as int));
            }
            return Some(i);
        }
        i = i + 1;
    }
    let mut j: usize = 0;
    while j < nodes.len()
        invariant
            j <= nodes@.len(),
            m == state@,
            nodes@ == state.workflow.nodes@,
            id@ == m.active_node_id,
            forall|x: int| 0 <= x < m.stages.len() ==> #[trigger] m.stages[x].node_id != id@,
            forall|x: int| 0 <= x < j ==> #[trigger] m.stages[x].status != "ACTIVE"@,
        decreases nodes@.len() - j,
    {
        if str_eq(nodes[j].status.as_str(), "ACTIVE") {
            proof {
                assert(first_active(m.stages, j as int));
            }
            return Some(j);
        }
        j = j + 1;
    }
    None
}

/// The run's current stage and its label (see `shown_stage`).
fn shown_stage_of(state: &ChainState) -> (r: (String, String))
    ensures
        shown_stage(state@.stages, state@.active_node_id, r.0@, r.1@),
{
    match current_stage_index(state) {
        Some(i) => (state.workflow.nodes[i].stage.clone(), state.workflow.nodes[i].label.clone()),
        None => (String::new(), String::new()),
    }
}

/// The stage a run's timeline shows as in progress: the current stage (see
/// `shown_stage`) of a run that is running or stopping, if it has one.
pub open spec fn timeline_stage_of(m: ChainModel, stage: Option<Seq<char>>) -> bool {
    if m.run_state == "RUNNING"@ || m.run_state == "STOPPING"@ {
        if exists|i: int| first_with_id(m.stages, m.active_node_id, i) {
            exists|i: int| first_with_id(m.stages, m.active_node_id, i) && stage == Some(m.stages[i].stage)
        } else if exists|i: int| first_active(m.stages, i) {
            exists|i: int| first_active(m.stages, i) && stage == Some(m.stages[i].stage)
        } else {
            stage is None
        }
    } else {
        stage is None
    }
}

/// The stage a run's timeline shows as in progress (see `timeline_stage_of`);
/// none without a run.
pub fn timeline_active_stage(state: Option<&ChainState>) -> (r: Option<String>)
    ensures
        match state {
            Some(s) => timeline_stage_of(s@, opt_view(r)),
            None => r is None,
        },
{
    match state {
        Some(s) => {
            if str_eq(s.run_state.as_str(), "RUNNING") || str_eq(s.run_state.as_str(), "STOPPING") {
                match current_stage_index(s) {
                    Some(i) => Some(s.workflow.nodes[i].stage.clone()),
                    None => None,
                }
            } else {
                None
            }
        },
        None => None,
    }
}

/// The status words a summary counts are distinct.
proof fn lemma_status_words_distinct()
    ensures
        "DONE"@ != "FAILED"@,
        "DONE"@ != "ACTIVE"@,
        "CLOSED"@ != "FAILED"@,
        "CLOSED"@ != "ACTIVE"@,
        "FAILED"@ != "ACTIVE"@,
{
    reveal_strlit("DONE");
    reveal_strlit("CLOSED");
    reveal_strlit("FAILED");
    reveal_strlit("ACTIVE");
    assert("DONE"@.len() != "FAILED"@.len());
    assert("DONE"@.len() != "ACTIVE"@.len());
    assert("CLOSED"@[0] != "FAILED"@[0]);
    assert("CLOSED"@[0] != "ACTIVE"@[0]);
    assert("FAILED"@[0] != "ACTIVE"@[0]);
}

/// The summary of a run's state (see `summary_of`).
pub fn run_summary(state: &ChainState) -> (r: RunSummary)
    ensures
        summary_of(state@, r),
{
    let ghost m = state@;
    let started = started_at(state);
    let (active_stage, active_stage_label) = shown_stage_of(state);
    let n = state.episodes.len();
    let ghost rows = state.episodes.rows();
    let mut active: usize = 0;
    let mut done: usize = 0;
    let mut failed: usize = 0;
    let mut i: usize = 0;
    while i < n
        invariant
            i <= n,
            n == rows.len(),
            rows == state.episodes.rows(),
            active == rows_where(rows.take(i as int), on_views(model_active())),
            done == rows_where(rows.take(i as int), on_views(model_done())),
            failed == rows_where(rows.take(i as int), on_views(model_failed())),
            active + done + failed <= i,
        decreases n - i,
    {
        let (_k, e) = state.episodes.entry_at(i);
        proof {
            assert(rows.take(i + 1).drop_last() =~= rows.take(i as int));
            assert(rows.take(i + 1).last().1 == *e);
            lemma_status_words_distinct();
        }
        let s = e.status.as_str();
        if str_eq(s, "DONE") || str_eq(s, "CLOSED") {
            done = done + 1;
        } else if str_eq(s, "FAILED") {
            failed = failed + 1;
        } else if str_eq(s, "ACTIVE") {
            active = active + 1;
        }
        i = i + 1;
    }
    proof {
        assert(rows.take(n as int) =~= rows);
        state.episodes.lemma_count_keys(on_views(model_active()));
        state.episodes.lemma_count_keys(on_views(model_done()));
        state.episodes.lemma_count_keys(on_views(model_failed()));
        assert(keys_where(m.episodes, model_active()) =~= keys_where(state.episodes@, on_views(model_active())));
        assert(keys_where(m.episodes, model_done()) =~= keys_where(state.episodes@, on_views(model_done())));
        assert(keys_where(m.episodes, model_failed()) =~= keys_where(state.episodes@, on_views(model_failed())));
        assert(m.episodes.dom() =~= state.episodes@.dom());
        assert(m.workers.dom() =~= state.workers@.dom());
    }
    let worker_total = state.workers.len();
    RunSummary {
        training_run_id: state.training_run_id.clone(),
        run_state: state.run_state.clone(),
        run_status: state.run_status.clone(),
        terminal_reason: state.terminal_reason.clone(),
        last_heartbeat_ts: state.last_heartbeat_ts,
        heartbeat_state: state.heartbeat_state.clone(),
        updated_at: state.updated_at,
        global_event_seq: state.global_event_seq,
        planned_episode_total: state.planned_episode_total,
        planned_step_total: state.planned_step_total,
        started_at: started,
        active_stage,
        active_stage_label,
        episode_total: n,
        episode_active: active,
        episode_done: done,
        episode_failed: failed,
        worker_total,
    }
}

/// A worker the server's fleet does not know: offline, not registered,
/// without load.
pub open spec fn offline(w: WorkerModel) -> WorkerModel {
    WorkerModel { status: "OFFLINE"@, status_reason: "NOT_REGISTERED"@, current_load: 0, ..w }
}

/// A worker seen through the fleet's record `rt` of it: heartbeat, status,
/// reason, load, capacity, endpoint, environment types and active episodes
/// come from the fleet.
pub open spec fn overlaid(base: WorkerModel, rt: WorkerModel) -> WorkerModel {
    WorkerModel {
        last_heartbeat_ts: rt.last_heartbeat_ts,
        status: rt.status,
        status_reason: rt.status_reason,
        status_changed_ts: rt.status_changed_ts,
        current_load: rt.current_load,
        capacity: rt.capacity,
        endpoint: rt.endpoint,
        supported_env_types: rt.supported_env_types,
        active_episodes: rt.active_episodes,
        ..base
    }
}

/// A run's workers seen through the fleet: every worker of the run or of
/// the fleet; one the fleet knows is overlaid with the fleet's record (a
/// fresh one if the run never saw it), one it does not is offline.
pub open spec fn fleet_workers(own: Map<Seq<char>, WorkerModel>, fleet: Map<Seq<char>, WorkerModel>) -> Map<Seq<char>, WorkerModel> {
    Map::new(
        |k: Seq<char>| own.contains_key(k) || fleet.contains_key(k),
        |k: Seq<char>|
            if fleet.contains_key(k) {
                overlaid(if own.contains_key(k) { own[k] } else { fresh_worker(k, Seq::empty()) }, fleet[k])
            } else {
                offline(own[k])
            },
    )
}

/// The run's tree with each worker node the fleet knows showing the
/// fleet's status for it.
pub open spec fn fleet_tree(t: Seq<TreeNodeModel>, fleet: Map<Seq<char>, WorkerModel>) -> Seq<TreeNodeModel> {
    t.map_values(
        |n: TreeNodeModel|
            if n.kind == "worker"@ && fleet.contains_key(n.ref_id) {
                TreeNodeModel { status: fleet[n.ref_id].status, ..n }
            } else {
                n
            },
    )
}

/// A run's state seen through the server's fleet, the workers of the orphan
/// run (`fleet`, if that run exists): the orphan run itself is shown as it
/// is; without a fleet every worker of the run is offline; with one, the
/// run's workers and worker nodes are overlaid (see `fleet_workers` and
/// `fleet_tree`).
pub open spec fn with_fleet(m: ChainModel, run: Seq<char>, fleet: Option<ChainModel>) -> ChainModel {
    if run == "_orphan"@ {
        m
    } else {
        match fleet {
            None => ChainModel { workers: workers_target(m.workers, None), ..m },
            Some(g) => ChainModel { workers: workers_target(m.workers, Some(g.workers)), tree: fleet_tree(m.tree, g.workers), ..m },
        }
    }
}

fn offline_copy(w: &WorkerView) -> (r: WorkerView)
    ensures
        r@ == offline(w@),
{
    WorkerView {
        worker_id: w.worker_id.clone(),
        active_episodes: copy_strings(&w.active_episodes),
        env_instances: copy_strings(&w.env_instances),
        last_heartbeat_ts: w.last_heartbeat_ts,
        status: "OFFLINE".to_string(),
        status_reason: "NOT_REGISTERED".to_string(),
        status_changed_ts: w.status_changed_ts,
        current_load: 0,
        capacity: w.capacity,
        endpoint: w.endpoint.clone(),
        supported_env_types: copy_strings(&w.supported_env_types),
    }
}

fn overlaid_copy(base: &WorkerView, rt: &WorkerView) -> (r: WorkerView)
    ensures
        r@ == overlaid(base@, rt@),
{
    WorkerView {
        worker_id: base.worker_id.clone(),
        active_episodes: copy_strings(&rt.active_episodes),
        env_instances: copy_strings(&base.env_instances),
        last_heartbeat_ts: rt.last_heartbeat_ts,
        status: rt.status.clone(),
        status_reason: rt.status_reason.clone(),
        status_changed_ts: rt.status_changed_ts,
        current_load: rt.current_load,
        capacity: rt.capacity,
        endpoint: rt.endpoint.clone(),
        supported_env_types: copy_strings(&rt.supported_env_types),
    }
}

/// The fleet's worker map, if there is a fleet.
pub open spec fn fleet_map(fleet: Option<&KeyedTable<WorkerView>>) -> Option<Map<Seq<char>, WorkerModel>> {
    match fleet {
        Some(t) => Some(t@.map_values(|w: WorkerView| w@)),
        None => None,
    }
}

/// What a run's workers become: overlaid by the fleet, or all offline.
pub open spec fn workers_target(own: Map<Seq<char>, WorkerModel>, fleet: Option<Map<Seq<char>, WorkerModel>>) -> Map<Seq<char>, WorkerModel> {
    match fleet {
        Some(f) => fleet_workers(own, f),
        None => own.map_values(|w: WorkerModel| offline(w)),
    }
}

/// A run's workers seen through the fleet (see `workers_target`).
fn overlay_worker_table(own: &KeyedTable<WorkerView>, fleet: Option<&KeyedTable<WorkerView>>) -> (r: KeyedTable<WorkerView>)
    ensures
        r@.map_values(|w: WorkerView| w@) == workers_target(own@.map_values(|w: WorkerView| w@), fleet_map(fleet)),
{
    let ghost own_m = own@.map_values(|w: WorkerView| w@);
    let ghost target = workers_target(own_m, fleet_map(fleet));
    let mut table: KeyedTable<WorkerView> = KeyedTable::new();
    let n = own.len();
    let ghost rows = own.rows();
    let mut i: usize = 0;
    while i < n
        invariant
            i <= n,
            n == rows.len(),
            rows == own.rows(),
            keys_distinct(rows),
            own_m == own@.map_values(|w: WorkerView| w@),
            target == workers_target(own_m, fleet_map(fleet)),
            forall|x: int| 0 <= x < rows.len() ==> #[trigger] own@.contains_key(rows[x].0) && own@[rows[x].0] == rows[x].1,
            forall|k: Seq<char>| #[trigger] table@.contains_key(k) <==> exists|x: int| 0 <= x < i && rows[x].0 == k,
            forall|k: Seq<char>| #[trigger] table@.contains_key(k) ==> table@[k]@ == target[k],
        decreases n - i,
    {
        let (k, w) = own.entry_at(i);
        let v = match fleet {
            Some(f) => match f.get(k.as_str()) {
                Some(rt) => overlaid_copy(w, rt),
                None => offline_copy(w),
            },
            None => offline_copy(w),
        };
        proof {
            assert(own_m.contains_key(k@));
            assert(own_m[k@] == w@);
            assert(v@ == target[k@]);
        }
        table.insert(k.clone(), v);
        proof {
            assert forall|kk: Seq<char>| #[trigger] table@.contains_key(kk) implies exists|x: int|
                0 <= x < i + 1 && rows[x].0 == kk by {
                if kk != k@ {
                    let x = choose|x: int| 0 <= x < i && rows[x].0 == kk;
                    assert(rows[x].0 == kk);
                } else {
                    assert(rows[i as int].0 == kk);
                }
            }
        }
        i = i + 1;
    }
    match fleet {
        Some(f) => {
            let ghost fleet_m = f@.map_values(|w: WorkerView| w@);
            let m2 = f.len();
            let ghost frows = f.rows();
            let mut j: usize = 0;
            while j < m2
                invariant
                    j <= m2,
                    m2 == frows.len(),
                    frows == f.rows(),
                    fleet == Some(f),
                    fleet_m == f@.map_values(|w: WorkerView| w@),
                    own_m == own@.map_values(|w: WorkerView| w@),
                    target == workers_target(own_m, fleet_map(fleet)),
                    forall|x: int| 0 <= x < frows.len() ==> #[trigger] f@.contains_key(frows[x].0) && f@[frows[x].0] == frows[x].1,
                    forall|k: Seq<char>| #[trigger] table@.contains_key(k) <==> (own@.contains_key(k) || exists|x: int|
                        0 <= x < j && frows[x].0 == k),
                    forall|k: Seq<char>| #[trigger] table@.contains_key(k) ==> table@[k]@ == target[k],
                decreases m2 - j,
            {
                let (k, rt) = f.entry_at(j);
                if own.get(k.as_str()).is_none() {
                    let base = fresh_worker_view(k.as_str(), "");
                    proof {
                        reveal_strlit("");
                    }
                    let v = overlaid_copy(&base, rt);
                    proof {
                        assert(fleet_m.contains_key(k@));
                        assert(v@ == target[k@]);
                    }
                    table.insert(k.clone(), v);
                }
                proof {
                    assert forall|kk: Seq<char>| #[trigger] table@.contains_key(kk) <==> (own@.contains_key(kk) || exists|x: int|
                        0 <= x < j + 1 && frows[x].0 == kk) by {
                        if kk == k@ {
                            assert(frows[j as int].0 == kk);
                        }
                        if exists|x: int| 0 <= x < j + 1 && frows[x].0 == kk {
                            let x = choose|x: int| 0 <= x < j + 1 && frows[x].0 == kk;
                            if x < j {
                                assert(exists|y: int| 0 <= y < j && frows[y].0 == kk);
                            }
                        }
                    }
                }
                j = j + 1;
            }
            proof {
                assert forall|k: Seq<char>| #[trigger] target.contains_key(k) implies table@.contains_key(k) by {
                    if !own@.contains_key(k) {
                        assert(fleet_m.contains_key(k));
                        let x = choose|x: int| 0 <= x < frows.len() && frows[x].0 == k;
                    }
                }
            }
        },
        None => {
            proof {
                assert forall|k: Seq<char>| #[trigger] target.contains_key(k) implies table@.contains_key(k) by {
                    let x = choose|x: int| 0 <= x < rows.len() && rows[x].0 == k;
                }
            }
        },
    }
    proof {
        assert(table@.map_values(|w: WorkerView| w@) =~= target);
    }
    table
}

/// A run's state seen through a fleet (see `with_fleet`); `global` is the
/// orphan run's state, if that run exists.
pub fn overlay_workers(global: Option<&ChainState>, run_id: &str, state: ChainState) -> (r: ChainState)
    ensures
        r@ == with_fleet(
            state@,
            run_id@,
            match global {
                Some(g) => Some(g@),
                None => None,
            },
        ),
{
    if str_eq(run_id, orphan_run_id()) {
        return state;
    }
    let mut state = state;
    let ghost m = state@;
    let fleet: Option<&KeyedTable<WorkerView>> = match global {
        Some(g) => Some(&g.workers),
        None => None,
    };
    let ghost own_map = state.workers@.map_values(|w: WorkerView| w@);
    let workers = overlay_worker_table(&state.workers, fleet);
    let ghost new_map = workers@.map_values(|w: WorkerView| w@);
    proof {
        assert(own_map =~= m.workers);
        match global {
            Some(g) => {
                assert(fleet_map(fleet).unwrap() =~= g@.workers);
                assert(fleet_map(fleet) == Some(g@.workers));
                assert(new_map == workers_target(m.workers, Some(g@.workers)));
            },
            None => {
                assert(new_map == workers_target(m.workers, None));
            },
        }
    }
    state.workers = workers;
    proof {
        assert(new_map =~= state@.workers);
    }
    match global {
        Some(g) => {
            let ghost fm = g@.workers;
            let ghost old_nodes = state.tree.nodes@;
            let ghost target = fleet_tree(m.tree, fm);
            let ghost before_loop = state@;
            let mut i: usize = 0;
            while i < state.tree.nodes.len()
                invariant
                    state@ == (ChainModel { tree: tree_models(state.tree.nodes@), ..before_loop }),
                    i <= state.tree.nodes@.len(),
                    state.tree.nodes@.len() == old_nodes.len(),
                    tree_models(old_nodes) == m.tree,
                    fm == g@.workers,
                    target == fleet_tree(m.tree, fm),
                    forall|j: int| 0 <= j < i ==> #[trigger] state.tree.nodes@[j]@ == target[j],
                    forall|j: int| i <= j < state.tree.nodes@.len() ==> #[trigger] state.tree.nodes@[j] == old_nodes[j],
                decreases state.tree.nodes@.len() - i,
            {
                if str_eq(state.tree.nodes[i].kind.as_str(), "worker") {
                    match g.workers.get(state.tree.nodes[i].ref_id.as_str()) {
                        Some(rt) => {
                            state.tree.nodes[i].status = rt.status.clone();
                        },
                        None => {},
                    }
                }
                i = i + 1;
            }
            proof {
                assert(tree_models(state.tree.nodes@) =~= target);
            }
        },
        None => {},
    }
    proof {
        let g_opt = match global {
            Some(g) => Some(g@),
            None => None,
        };
        assert(run_id@ != "_orphan"@);
        assert(state@.workers =~= with_fleet(m, run_id@, g_opt).workers);
        assert(state@.tree =~= with_fleet(m, run_id@, g_opt).tree);
        assert(state@ =~= with_fleet(
            m,
            run_id@,
            match global {
                Some(g) => Some(g@),
                None => None,
            },
        ));
    }
    state
}

/// A run's state seen through the server's fleet, the workers of the
/// engine's orphan run (see `with_fleet`).
pub fn overlay_global_workers(engine: &MergeEngine, run_id: &str, state: ChainState) -> (r: ChainState)
    ensures
        r@ == with_fleet(
            state@,
            run_id@,
            if engine.runs_spec().contains_key("_orphan"@) { Some(engine.runs_spec()["_orphan"@]) } else { None },
        ),
{
    let global = engine.get(orphan_run_id());
    overlay_workers(global, run_id, state)
}

/// Does run id `a` come before `b` in a listing, newest (greatest) first?
pub open spec fn id_ahead(a: Seq<char>, b: Seq<char>) -> bool {
    text_lt(b, a)
}

/// Are the ids in listing order (none comes after one it should precede)?
pub open spec fn ids_listed(v: Seq<String>) -> bool {
    forall|i: int, j: int| 0 <= i < j < v.len() ==> !id_ahead(#[trigger] v[j]@, #[trigger] v[i]@)
}

/// The run ids in listing order, greatest first.
pub fn list_order_ids(v: Vec<String>) -> (r: Vec<String>)
    ensures
        ids_listed(r@),
        r@.to_multiset() == v@.to_multiset(),
{
    let mut out: Vec<String> = Vec::new();
    let mut rest = v;
    let ghost orig = rest@;
    let ghost mut i: int = 0;
    while rest.len() > 0
        invariant
            0 <= i <= orig.len(),
            rest@ == orig.skip(i),
            ids_listed(out@),
            out@.to_multiset() == orig.take(i).to_multiset(),
        decreases rest@.len(),
    {
        let e = rest.remove(0);
        let mut pos: usize = 0;
        while pos < out.len() && !str_lt(out[pos].as_str(), e.as_str())
            invariant
                pos <= out@.len(),
                forall|a: int| 0 <= a < pos ==> !id_ahead(e@, #[trigger] out@[a]@),
            decreases out@.len() - pos,
        {
            pos = pos + 1;
        }
        let ghost before = out@;
        out.insert(pos, e);
        proof {
            assert(e == orig[i]);
            assert(orig.take(i + 1) =~= orig.take(i).push(orig[i]));
            vstd::seq_lib::to_multiset_insert(before, pos as int, e);
            vstd::seq_lib::to_multiset_build(orig.take(i), orig[i]);
            assert forall|a: int, b: int| 0 <= a < b < out@.len() implies !id_ahead(#[trigger] out@[b]@, #[trigger] out@[a]@) by {
                if b < pos {
                    assert(out@[a] == before[a] && out@[b] == before[b]);
                } else if b == pos {
                    assert(out@[a] == before[a]);
                } else if a == pos {
                    assert(out@[b] == before[b - 1]);
                    lemma_text_lt_order(e@, before[pos as int]@, before[b - 1]@);
                    lemma_text_lt_order(before[pos as int]@, before[b - 1]@, e@);
                    lemma_text_lt_order(e@, before[b - 1]@, before[pos as int]@);
                    if b - 1 > pos {
                        assert(!id_ahead(before[b - 1]@, before[pos as int]@));
                    }
                } else if a < pos {
                    assert(out@[a] == before[a] && out@[b] == before[b - 1]);
                } else {
                    assert(out@[a] == before[a - 1] && out@[b] == before[b - 1]);
                }
            }
            i = i + 1;
            assert(rest@ =~= orig.skip(i));
        }
    }
    proof {
        assert(orig.take(i) =~= orig);
    }
    out
}

/// Does summary `a` come before `b` in a listing: started later, or at the
/// same time but updated later, or both equal and with a greater run id?
pub open spec fn summary_ahead(a: RunSummary, b: RunSummary) -> bool {
    a.started_at > b.started_at || (a.started_at == b.started_at && (a.updated_at > b.updated_at || (a.updated_at
        == b.updated_at && text_lt(b.training_run_id@, a.training_run_id@))))
}

/// Are the summaries in listing order?
pub open spec fn summaries_listed(v: Seq<RunSummary>) -> bool {
    forall|i: int, j: int| 0 <= i < j < v.len() ==> !summary_ahead(#[trigger] v[j], #[trigger] v[i])
}

proof fn lemma_summary_ahead_order(a: RunSummary, b: RunSummary, c: RunSummary)
    ensures
        summary_ahead(a, b) && summary_ahead(b, c) ==> summary_ahead(a, c),
        summary_ahead(a, b) ==> !summary_ahead(b, a),
{
    lemma_text_lt_order(c.training_run_id@, b.training_run_id@, a.training_run_id@);
    lemma_text_lt_order(b.training_run_id@, a.training_run_id@, c.training_run_id@);
}

fn ahead_of(a: &RunSummary, b: &RunSummary) -> (r: bool)
    ensures
        r == summary_ahead(*a, *b),
{
    if a.started_at != b.started_at {
        a.started_at > b.started_at
    } else if a.updated_at != b.updated_at {
        a.updated_at > b.updated_at
    } else {
        str_lt(b.training_run_id.as_str(), a.training_run_id.as_str())
    }
}

/// The summaries in listing order, most recently started first; equal ones
/// keep their order.
pub fn list_order_summaries(v: Vec<RunSummary>) -> (r: Vec<RunSummary>)
    ensures
        summaries_listed(r@),
        r@.to_multiset() == v@.to_multiset(),
{
    let mut out: Vec<RunSummary> = Vec::new();
    let mut rest = v;
    let ghost orig = rest@;
    let ghost mut i: int = 0;
    while rest.len() > 0
        invariant
            0 <= i <= orig.len(),
            rest@ == orig.skip(i),
            summaries_listed(out@),
            out@.to_multiset() == orig.take(i).to_multiset(),
        decreases rest@.len(),
    {
        let e = rest.remove(0);
        let mut pos: usize = 0;
        while pos < out.len() && !ahead_of(&e, &out[pos])
            invariant
                pos <= out@.len(),
                forall|a: int| 0 <= a < pos ==> !summary_ahead(e, #[trigger] out@[a]),
            decreases out@.len() - pos,
        {
            pos = pos + 1;
        }
        let ghost before = out@;
        out.insert(pos, e);
        proof {
            assert(e == orig[i]);
            assert(orig.take(i + 1) =~= orig.take(i).push(orig[i]));
            vstd::seq_lib::to_multiset_insert(before, pos as int, e);
            vstd::seq_lib::to_multiset_build(orig.take(i), orig[i]);
            assert forall|a: int, b: int| 0 <= a < b < out@.len() implies !summary_ahead(#[trigger] out@[b], #[trigger] out@[a]) by {
                if b < pos {
                    assert(out@[a] == before[a] && out@[b] == before[b]);
                } else if b == pos {
                    assert(out@[a] == before[a]);
                } else if a == pos {
                    assert(out@[b] == before[b - 1]);
                    lemma_summary_ahead_order(before[b - 1], e, before[pos as int]);
                    if b - 1 > pos {
                        assert(!summary_ahead(before[b - 1], before[pos as int]));
                    }
                } else if a < pos {
                    assert(out@[a] == before[a] && out@[b] == before[b - 1]);
                } else {
                    assert(out@[a] == before[a - 1] && out@[b] == before[b - 1]);
                }
            }
            i = i + 1;
            assert(rest@ =~= orig.skip(i));
        }
    }
    proof {
        assert(orig.take(i) =~= orig);
    }
    out
}

} // verus!
