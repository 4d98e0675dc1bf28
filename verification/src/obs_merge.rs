//! Merging observability events into run states: what each event type does
//! to a run's workflow stages, stage counters, tree, episodes and workers,
//! and the delta pushed to subscribers.
use crate::chain_state::{
    empty_chain, CursorModel, run_node_id, EpisodeModel, WorkerModel, stage_models, strs, tree_models, ChainModel, ChainState, MetaModel, StageModel, TreeMeta, TreeNode,
    TreeNodeModel, WorkflowNode,
};
use crate::config::concat3;
use crate::obs_timeline::holds;
use crate::execution_backend::{json_str_field, opt_view, or_empty, payload_str_field};
use crate::obs::{
    full_refresh_event, gate_decision, lifecycle_after, lifecycle_of, opt_str_view, resolved_run_id, Disposition,
    EventCursor, MergeGate, RunPhase,
};
use crate::keyed_table::KeyedTable;
use crate::obs_views::{EpisodeView, WorkerView};
use crate::text::{decimal, decimal_spec, str_eq};
use vstd::prelude::*;

verus! {

broadcast use vstd::string::group_string_axioms;

/// An observability event as it reaches the merge. `payload` holds the
/// event's JSON payload as text.
#[derive(Debug, Clone)]
pub struct ObservabilityEvent {
    pub event_id: String,
    pub schema_version: String,
    pub correlation_id: String,
    pub training_run_id: Option<String>,
    pub adapter_run_id: Option<String>,
    pub batch_id: Option<String>,
    pub episode_id: Option<String>,
    pub attempt_id: Option<u32>,
    pub worker_id: Option<String>,
    pub env_instance_id: Option<String>,
    pub step_index: Option<i32>,
    pub dispatch_lease_id: Option<String>,
    pub scheduler_epoch: Option<u64>,
    pub env_type: Option<String>,
    pub source_id: String,
    pub module: String,
    pub entity_type: String,
    pub entity_id: String,
    pub event_type: String,
    pub seq: u64,
    pub source_ts: i64,
    pub payload: Option<Vec<u8>>,
}

/// The episode an event is about: its episode id, else its entity id.
pub open spec fn episode_key(ev: ObservabilityEvent) -> Seq<char> {
    match ev.episode_id {
        Some(e) => e@,
        None => ev.entity_id@,
    }
}

/// The stages with stage `id` set to `status`.
pub open spec fn with_stage_status(stages: Seq<StageModel>, id: Seq<char>, status: Seq<char>) -> Seq<StageModel> {
    stages.map_values(|n: StageModel| if n.node_id == id { StageModel { status, ..n } } else { n })
}

/// Stage `id` after an event made it `status`: the event's correlation,
/// episode (when it names one) and source time are recorded on it.
pub open spec fn stage_touched(n: StageModel, status: Seq<char>, ev: ObservabilityEvent) -> StageModel {
    StageModel {
        status,
        correlation_id: ev.correlation_id@,
        episode_id: match ev.episode_id {
            Some(e) => e@,
            None => n.episode_id,
        },
        source_ts: ev.source_ts,
        ..n
    }
}

/// A run whose stage `id` an event made `status`; an active stage becomes
/// the workflow's active stage.
pub open spec fn workflow_active(m: ChainModel, id: Seq<char>, status: Seq<char>, ev: ObservabilityEvent) -> ChainModel {
    ChainModel {
        stages: m.stages.map_values(|n: StageModel| if n.node_id == id { stage_touched(n, status, ev) } else { n }),
        active_node_id: if status == "ACTIVE"@ { id } else { m.active_node_id },
        ..m
    }
}

/// The episodes counted at a stage so far.
pub open spec fn seen_at(m: ChainModel, stage: Seq<char>) -> Seq<Seq<char>> {
    if m.seen.contains_key(stage) { m.seen[stage] } else { Seq::empty() }
}

/// A run after episode `ep` is counted at `stage`: an episode is counted
/// once per stage, and the stage's counter shows how many were counted. An
/// event without an episode counts nothing.
pub open spec fn counted(m: ChainModel, stage: Seq<char>, ep: Seq<char>) -> ChainModel {
    if ep.len() == 0 || seen_at(m, stage).contains(ep) {
        m
    } else {
        let s = seen_at(m, stage).push(ep);
        ChainModel {
            seen: m.seen.insert(stage, s),
            stages: m.stages.map_values(
                |n: StageModel| if n.node_id == stage { StageModel { count: Some(s.len() as usize), ..n } } else { n },
            ),
            ..m
        }
    }
}

/// Sets the status of the stages named `id`.
fn set_stage_status(nodes: &mut Vec<WorkflowNode>, id: &str, status: &str)
    ensures
        stage_models(final(nodes)@) == with_stage_status(stage_models(old(nodes)@), id@, status@),
{
    let ghost old_nodes = nodes@;
    let mut i: usize = 0;
    while i < nodes.len()
        invariant
            i <= nodes@.len(),
            nodes@.len() == old_nodes.len(),
            forall|j: int| 0 <= j < i ==> #[trigger] nodes@[j]@ == with_stage_status(stage_models(old_nodes), id@, status@)[j],
            forall|j: int| i <= j < nodes@.len() ==> #[trigger] nodes@[j] == old_nodes[j],
        decreases nodes@.len() - i,
    {
        if str_eq(nodes[i].node_id.as_str(), id) {
            nodes[i].status = status.to_string();
        }
        i = i + 1;
    }
    proof {
        assert(stage_models(nodes@) =~= with_stage_status(stage_models(old_nodes), id@, status@));
    }
}

/// Records on the stages named `id` that the event made them `status`.
fn touch_stage(nodes: &mut Vec<WorkflowNode>, id: &str, status: &str, ev: &ObservabilityEvent)
    ensures
        stage_models(final(nodes)@) == stage_models(old(nodes)@).map_values(
            |n: StageModel| if n.node_id == id@ { stage_touched(n, status@, *ev) } else { n },
        ),
{
    let ghost old_nodes = nodes@;
    let ghost target = stage_models(old_nodes).map_values(
        |n: StageModel| if n.node_id == id@ { stage_touched(n, status@, *ev) } else { n },
    );
    let mut i: usize = 0;
    while i < nodes.len()
        invariant
            i <= nodes@.len(),
            nodes@.len() == old_nodes.len(),
            target == stage_models(old_nodes).map_values(
                |n: StageModel| if n.node_id == id@ { stage_touched(n, status@, *ev) } else { n },
            ),
            forall|j: int| 0 <= j < i ==> #[trigger] nodes@[j]@ == target[j],
            forall|j: int| i <= j < nodes@.len() ==> #[trigger] nodes@[j] == old_nodes[j],
        decreases nodes@.len() - i,
    {
        if str_eq(nodes[i].node_id.as_str(), id) {
            nodes[i].status = status.to_string();
            nodes[i].correlation_id = ev.correlation_id.clone();
            match &ev.episode_id {
                Some(e) => {
                    nodes[i].episode_id = e.clone();
                },
                None => {},
            }
            nodes[i].source_ts = ev.source_ts;
        }
        i = i + 1;
    }
    proof {
        assert(stage_models(nodes@) =~= target);
    }
}

/// The event made stage `id` `status` (see `workflow_active`).
fn set_workflow_active(state: &mut ChainState, id: &str, status: &str, ev: &ObservabilityEvent)
    ensures
        final(state)@ == workflow_active(old(state)@, id@, status@, *ev),
{
    touch_stage(&mut state.workflow.nodes, id, status, ev);
    if str_eq(status, "ACTIVE") {
        state.workflow.active_node_id = id.to_string();
    }
    proof {
        assert(state@ =~= workflow_active(old(state)@, id@, status@, *ev));
    }
}

/// Sets the counter of the stages named `stage` to `n`.
fn set_stage_count(nodes: &mut Vec<WorkflowNode>, stage: &str, n: usize)
    ensures
        stage_models(final(nodes)@) == stage_models(old(nodes)@).map_values(
            |m: StageModel| if m.node_id == stage@ { StageModel { count: Some(n), ..m } } else { m },
        ),
{
    let ghost old_nodes = nodes@;
    let ghost target = stage_models(old_nodes).map_values(
        |m: StageModel| if m.node_id == stage@ { StageModel { count: Some(n), ..m } } else { m },
    );
    let mut i: usize = 0;
    while i < nodes.len()
        invariant
            i <= nodes@.len(),
            nodes@.len() == old_nodes.len(),
            target == stage_models(old_nodes).map_values(
                |m: StageModel| if m.node_id == stage@ { StageModel { count: Some(n), ..m } } else { m },
            ),
            forall|j: int| 0 <= j < i ==> #[trigger] nodes@[j]@ == target[j],
            forall|j: int| i <= j < nodes@.len() ==> #[trigger] nodes@[j] == old_nodes[j],
        decreases nodes@.len() - i,
    {
        if str_eq(nodes[i].node_id.as_str(), stage) {
            nodes[i].count = Some(n);
        }
        i = i + 1;
    }
    proof {
        assert(stage_models(nodes@) =~= target);
    }
}

/// Counts episode `ep` at `stage` (see `counted`).
fn count_stage(state: &mut ChainState, stage: &str, ep: &str)
    ensures
        final(state)@ == counted(old(state)@, stage@, ep@),
{
    if ep.is_empty() {
        return;
    }
    let already = match state.stage_seen_episodes.get(stage) {
        Some(v) => holds(v, ep),
        None => false,
    };
    if already {
        return;
    }
    let ghost m = state@;
    let mut list: Vec<String> = match state.stage_seen_episodes.remove(stage) {
        Some(v) => v,
        None => Vec::new(),
    };
    proof {
        assert(strs(list@) =~= seen_at(m, stage@));
    }
    list.push(ep.to_string());
    let n = list.len();
    let ghost pushed = strs(list@);
    proof {
        assert(pushed =~= seen_at(m, stage@).push(ep@));
    }
    state.stage_seen_episodes.insert(stage.to_string(), list);
    set_stage_count(&mut state.workflow.nodes, stage, n);
    proof {
        assert(state@.seen =~= m.seen.insert(stage@, pushed));
        assert(state@ =~= counted(m, stage@, ep@));
    }
}

/// Does the tree hold a node with id `id`?
pub open spec fn has_node(t: Seq<TreeNodeModel>, id: Seq<char>) -> bool {
    exists|i: int| 0 <= i < t.len() && t[i].node_id == id
}

/// The tree with the nodes named `id` set to `status`.
pub open spec fn tree_with_status(t: Seq<TreeNodeModel>, id: Seq<char>, status: Seq<char>) -> Seq<TreeNodeModel> {
    t.map_values(|n: TreeNodeModel| if n.node_id == id { TreeNodeModel { status, ..n } } else { n })
}

/// How many nodes of the tree have parent `p`.
pub open spec fn children_of(t: Seq<TreeNodeModel>, p: Seq<char>) -> nat
    decreases t.len(),
{
    if t.len() == 0 {
        0
    } else {
        children_of(t.drop_last(), p) + if t.last().parent_id == p { 1nat } else { 0nat }
    }
}

/// The tree with the child count of node `p` brought up to date.
pub open spec fn with_children_counted(t: Seq<TreeNodeModel>, p: Seq<char>) -> Seq<TreeNodeModel> {
    let c = children_of(t, p);
    t.map_values(|n: TreeNodeModel| if n.node_id == p { TreeNodeModel { children_count: c, ..n } } else { n })
}

/// The tree node id of a worker.
pub open spec fn worker_node_id(w: Seq<char>) -> Seq<char> {
    "worker:"@ + w
}

/// The tree node id of an episode.
pub open spec fn episode_node_id(ep: Seq<char>) -> Seq<char> {
    "episode:"@ + ep
}

/// `n` in decimal with a minus sign when negative, as `format!("{n}")`.
pub open spec fn signed_decimal(n: i32) -> Seq<char> {
    if n < 0 {
        "-"@ + decimal_spec((-n) as nat)
    } else {
        decimal_spec(n as nat)
    }
}

/// The tree node id of an episode's step.
pub open spec fn step_node_id(ep: Seq<char>, step: i32) -> Seq<char> {
    "step:"@ + ep + ":"@ + signed_decimal(step)
}

/// The tree after worker `w` is shown with `status`: its node is updated,
/// or created under the run's node, whose child count is then refreshed.
pub open spec fn tree_upsert_worker(t: Seq<TreeNodeModel>, run: Seq<char>, w: Seq<char>, status: Seq<char>) -> Seq<TreeNodeModel> {
    let id = worker_node_id(w);
    if has_node(t, id) {
        tree_with_status(t, id, status)
    } else {
        with_children_counted(
            t.push(
                TreeNodeModel {
                    node_id: id,
                    parent_id: run_node_id(run),
                    kind: "worker"@,
                    ref_id: w,
                    status,
                    children_count: 0,
                    meta: MetaModel::Empty,
                },
            ),
            run_node_id(run),
        )
    }
}

/// The parent an event gives its episode's node: the event's worker when
/// it names a non-empty one, else the run.
pub open spec fn episode_parent(ev: ObservabilityEvent, run: Seq<char>) -> Seq<char> {
    match ev.worker_id {
        Some(w) => if w@.len() > 0 { worker_node_id(w@) } else { run_node_id(run) },
        None => run_node_id(run),
    }
}

/// The tree after the event's worker, when it names a non-empty one, is
/// shown active.
pub open spec fn tree_with_event_worker(t: Seq<TreeNodeModel>, run: Seq<char>, ev: ObservabilityEvent) -> Seq<TreeNodeModel> {
    match ev.worker_id {
        Some(w) => if w@.len() > 0 { tree_upsert_worker(t, run, w@, "ACTIVE"@) } else { t },
        None => t,
    }
}

/// An existing episode node after an event showed it with `status`.
pub open spec fn episode_node_refreshed(n: TreeNodeModel, status: Seq<char>, parent: Seq<char>, ev: ObservabilityEvent) -> TreeNodeModel {
    TreeNodeModel {
        status,
        parent_id: parent,
        meta: MetaModel::EpisodeUpdated(ev.attempt_id, ev.correlation_id@, ev.step_index),
        ..n
    }
}

/// The tree after an event showed episode `ep` with `status`: the event's
/// worker is shown active first; the episode's node is then refreshed (its
/// parent, status and meta), or created under its parent, whose child count
/// is then refreshed.
pub open spec fn tree_upsert_episode(
    t: Seq<TreeNodeModel>,
    run: Seq<char>,
    ep: Seq<char>,
    ev: ObservabilityEvent,
    status: Seq<char>,
) -> Seq<TreeNodeModel> {
    let t1 = tree_with_event_worker(t, run, ev);
    let parent = episode_parent(ev, run);
    let id = episode_node_id(ep);
    if has_node(t1, id) {
        t1.map_values(|n: TreeNodeModel| if n.node_id == id { episode_node_refreshed(n, status, parent, ev) } else { n })
    } else {
        with_children_counted(
            t1.push(
                TreeNodeModel {
                    node_id: id,
                    parent_id: parent,
                    kind: "episode"@,
                    ref_id: ep,
                    status,
                    children_count: 0,
                    meta: MetaModel::EpisodeCreated(ev.attempt_id, ev.correlation_id@),
                },
            ),
            parent,
        )
    }
}

/// The status a step event gives its step: done once complete.
pub open spec fn step_status(ev: ObservabilityEvent) -> Seq<char> {
    if ev.event_type@ == "STEP_COMPLETE"@ { "DONE"@ } else { "ACTIVE"@ }
}

/// The tree after a step event for step `step` of episode `ep`: the episode
/// is shown active, then the step's node is updated, or created under the
/// episode's node, whose child count is then refreshed.
pub open spec fn tree_upsert_step(t: Seq<TreeNodeModel>, run: Seq<char>, ep: Seq<char>, step: i32, ev: ObservabilityEvent) -> Seq<TreeNodeModel> {
    let t1 = tree_upsert_episode(t, run, ep, ev, "ACTIVE"@);
    let id = step_node_id(ep, step);
    if has_node(t1, id) {
        tree_with_status(t1, id, step_status(ev))
    } else {
        with_children_counted(
            t1.push(
                TreeNodeModel {
                    node_id: id,
                    parent_id: episode_node_id(ep),
                    kind: "step"@,
                    ref_id: signed_decimal(step),
                    status: step_status(ev),
                    children_count: 0,
                    meta: MetaModel::Step(step),
                },
            ),
            episode_node_id(ep),
        )
    }
}

/// The tree with the still active steps of episode `ep` set to `status`.
pub open spec fn tree_close_steps(t: Seq<TreeNodeModel>, ep: Seq<char>, status: Seq<char>) -> Seq<TreeNodeModel> {
    t.map_values(
        |n: TreeNodeModel|
            if n.parent_id == episode_node_id(ep) && n.kind == "step"@ && n.status == "ACTIVE"@ {
                TreeNodeModel { status, ..n }
            } else {
                n
            },
    )
}

/// `p` followed by `s`.
pub(crate) fn prefixed(p: &str, s: &str) -> (r: String)
    ensures
        r@ == p@ + s@,
{
    let r = concat3(p, s, "");
    proof {
        reveal_strlit("");
        assert(r@ =~= p@ + s@);
    }
    r
}

/// `n` written in decimal with its sign.
pub(crate) fn signed_text(n: i32) -> (s: String)
    ensures
        s@ == signed_decimal(n),
{
    if n < 0 {
        let wide: i64 = n as i64;
        let mag: u64 = (0i64 - wide) as u64;
        let d = decimal(mag);
        prefixed("-", d.as_str())
    } else {
        decimal(n as u64)
    }
}

/// Is there a node with id `id`?
fn tree_holds(nodes: &Vec<TreeNode>, id: &str) -> (b: bool)
    ensures
        b == has_node(tree_models(nodes@), id@),
{
    let mut i: usize = 0;
    while i < nodes.len()
        invariant
            i <= nodes@.len(),
            forall|j: int| 0 <= j < i ==> #[trigger] nodes@[j].node_id@ != id@,
        decreases nodes@.len() - i,
    {
        if str_eq(nodes[i].node_id.as_str(), id) {
            proof {
                assert(tree_models(nodes@)[i as int].node_id == id@);
            }
            return true;
        }
        i = i + 1;
    }
    proof {
        if has_node(tree_models(nodes@), id@) {
            let j = choose|j: int| 0 <= j < tree_models(nodes@).len() && tree_models(nodes@)[j].node_id == id@;
            assert(nodes@[j].node_id@ == id@);
        }
    }
    false
}

/// Sets the status of the nodes named `id`.
fn set_tree_status(nodes: &mut Vec<TreeNode>, id: &str, status: &str)
    ensures
        tree_models(final(nodes)@) == tree_with_status(tree_models(old(nodes)@), id@, status@),
{
    let ghost old_nodes = nodes@;
    let ghost target = tree_with_status(tree_models(old_nodes), id@, status@);
    let mut i: usize = 0;
    while i < nodes.len()
        invariant
            i <= nodes@.len(),
            nodes@.len() == old_nodes.len(),
            target == tree_with_status(tree_models(old_nodes), id@, status@),
            forall|j: int| 0 <= j < i ==> #[trigger] nodes@[j]@ == target[j],
            forall|j: int| i <= j < nodes@.len() ==> #[trigger] nodes@[j] == old_nodes[j],
        decreases nodes@.len() - i,
    {
        if str_eq(nodes[i].node_id.as_str(), id) {
            nodes[i].status = status.to_string();
        }
        i = i + 1;
    }
    proof {
        assert(tree_models(nodes@) =~= target);
    }
}

/// A tree never has more children of a node than nodes.
proof fn lemma_children_bounded(t: Seq<TreeNodeModel>, p: Seq<char>)
    ensures
        children_of(t, p) <= t.len(),
    decreases t.len(),
{
    if t.len() > 0 {
        lemma_children_bounded(t.drop_last(), p);
    }
}

/// How many nodes have parent `p`.
fn count_children(nodes: &Vec<TreeNode>, p: &str) -> (c: usize)
    ensures
        c == children_of(tree_models(nodes@), p@),
{
    let ghost t = tree_models(nodes@);
    let mut c: usize = 0;
    let mut i: usize = 0;
    while i < nodes.len()
        invariant
            i <= nodes@.len(),
            t == tree_models(nodes@),
            c == children_of(t.take(i as int), p@),
            c <= i,
        decreases nodes@.len() - i,
    {
        proof {
            assert(t.take(i + 1).drop_last() =~= t.take(i as int));
        }
        if str_eq(nodes[i].parent_id.as_str(), p) {
            c = c + 1;
        }
        i = i + 1;
    }
    proof {
        assert(t.take(i as int) =~= t);
    }
    c
}

/// Brings the child count of the nodes named `p` up to date.
fn bump_children(nodes: &mut Vec<TreeNode>, p: &str)
    ensures
        tree_models(final(nodes)@) == with_children_counted(tree_models(old(nodes)@), p@),
{
    let c = count_children(nodes, p);
    let ghost old_nodes = nodes@;
    let ghost target = with_children_counted(tree_models(old_nodes), p@);
    let mut i: usize = 0;
    while i < nodes.len()
        invariant
            i <= nodes@.len(),
            nodes@.len() == old_nodes.len(),
            c == children_of(tree_models(old_nodes), p@),
            target == with_children_counted(tree_models(old_nodes), p@),
            forall|j: int| 0 <= j < i ==> #[trigger] nodes@[j]@ == target[j],
            forall|j: int| i <= j < nodes@.len() ==> #[trigger] nodes@[j] == old_nodes[j],
        decreases nodes@.len() - i,
    {
        if str_eq(nodes[i].node_id.as_str(), p) {
            nodes[i].children_count = c;
        }
        i = i + 1;
    }
    proof {
        assert(tree_models(nodes@) =~= target);
    }
}

/// Shows worker `w` with `status` (see `tree_upsert_worker`).
fn upsert_worker_node(nodes: &mut Vec<TreeNode>, run: &str, w: &str, status: &str)
    ensures
        tree_models(final(nodes)@) == tree_upsert_worker(tree_models(old(nodes)@), run@, w@, status@),
{
    let id = prefixed("worker:", w);
    if tree_holds(nodes, id.as_str()) {
        set_tree_status(nodes, id.as_str(), status);
    } else {
        let parent = prefixed("run:", run);
        let ghost before = tree_models(nodes@);
        nodes.push(
            TreeNode {
                node_id: id,
                parent_id: parent.clone(),
                kind: "worker".to_string(),
                ref_id: w.to_string(),
                status: status.to_string(),
                children_count: 0,
                meta: TreeMeta::Empty,
            },
        );
        proof {
            assert(tree_models(nodes@) =~= before.push(
                TreeNodeModel {
                    node_id: worker_node_id(w@),
                    parent_id: run_node_id(run@),
                    kind: "worker"@,
                    ref_id: w@,
                    status: status@,
                    children_count: 0,
                    meta: MetaModel::Empty,
                },
            ));
        }
        bump_children(nodes, parent.as_str());
    }
}

/// Shows the event's worker, when it names a non-empty one, as active, and
/// gives the id of the parent the event's episode hangs under.
fn event_worker_node(nodes: &mut Vec<TreeNode>, run: &str, ev: &ObservabilityEvent) -> (parent: String)
    ensures
        tree_models(final(nodes)@) == tree_with_event_worker(tree_models(old(nodes)@), run@, *ev),
        parent@ == episode_parent(*ev, run@),
{
    match &ev.worker_id {
        Some(w) => {
            if !w.as_str().is_empty() {
                upsert_worker_node(nodes, run, w.as_str(), "ACTIVE");
                prefixed("worker:", w.as_str())
            } else {
                prefixed("run:", run)
            }
        },
        None => prefixed("run:", run),
    }
}

/// Shows episode `ep` with `status` (see `tree_upsert_episode`).
fn upsert_episode_node(nodes: &mut Vec<TreeNode>, run: &str, ep: &str, ev: &ObservabilityEvent, status: &str)
    ensures
        tree_models(final(nodes)@) == tree_upsert_episode(tree_models(old(nodes)@), run@, ep@, *ev, status@),
{
    let parent = event_worker_node(nodes, run, ev);
    let id = prefixed("episode:", ep);
    let ghost t1 = tree_models(nodes@);
    if tree_holds(nodes, id.as_str()) {
        let ghost old_nodes = nodes@;
        let ghost target = t1.map_values(
            |n: TreeNodeModel| if n.node_id == id@ { episode_node_refreshed(n, status@, parent@, *ev) } else { n },
        );
        let mut i: usize = 0;
        while i < nodes.len()
            invariant
                i <= nodes@.len(),
                nodes@.len() == old_nodes.len(),
                t1 == tree_models(old_nodes),
                target == t1.map_values(
                    |n: TreeNodeModel| if n.node_id == id@ { episode_node_refreshed(n, status@, parent@, *ev) } else { n },
                ),
                forall|j: int| 0 <= j < i ==> #[trigger] nodes@[j]@ == target[j],
                forall|j: int| i <= j < nodes@.len() ==> #[trigger] nodes@[j] == old_nodes[j],
            decreases nodes@.len() - i,
        {
            if str_eq(nodes[i].node_id.as_str(), id.as_str()) {
                nodes[i].status = status.to_string();
                nodes[i].parent_id = parent.clone();
                nodes[i].meta = TreeMeta::EpisodeUpdated {
                    attempt_id: ev.attempt_id,
                    correlation_id: ev.correlation_id.clone(),
                    step_index: ev.step_index,
                };
            }
            i = i + 1;
        }
        proof {
            assert(tree_models(nodes@) =~= target);
        }
    } else {
        nodes.push(
            TreeNode {
                node_id: id,
                parent_id: parent.clone(),
                kind: "episode".to_string(),
                ref_id: ep.to_string(),
                status: status.to_string(),
                children_count: 0,
                meta: TreeMeta::EpisodeCreated { attempt_id: ev.attempt_id, correlation_id: ev.correlation_id.clone() },
            },
        );
        proof {
            assert(tree_models(nodes@) =~= t1.push(
                TreeNodeModel {
                    node_id: episode_node_id(ep@),
                    parent_id: parent@,
                    kind: "episode"@,
                    ref_id: ep@,
                    status: status@,
                    children_count: 0,
                    meta: MetaModel::EpisodeCreated(ev.attempt_id, ev.correlation_id@),
                },
            ));
        }
        bump_children(nodes, parent.as_str());
    }
}

/// Shows step `step` of episode `ep` (see `tree_upsert_step`).
fn upsert_step_node(nodes: &mut Vec<TreeNode>, run: &str, ep: &str, step: i32, ev: &ObservabilityEvent)
    ensures
        tree_models(final(nodes)@) == tree_upsert_step(tree_models(old(nodes)@), run@, ep@, step, *ev),
{
    upsert_episode_node(nodes, run, ep, ev, "ACTIVE");
    let step_text = signed_text(step);
    let id = concat3("step:", ep, ":");
    let id = prefixed(id.as_str(), step_text.as_str());
    let status = if str_eq(ev.event_type.as_str(), "STEP_COMPLETE") { "DONE" } else { "ACTIVE" };
    proof {
        assert(id@ =~= step_node_id(ep@, step));
    }
    if tree_holds(nodes, id.as_str()) {
        set_tree_status(nodes, id.as_str(), status);
    } else {
        let parent = prefixed("episode:", ep);
        let ghost before = tree_models(nodes@);
        nodes.push(
            TreeNode {
                node_id: id,
                parent_id: parent.clone(),
                kind: "step".to_string(),
                ref_id: step_text,
                status: status.to_string(),
                children_count: 0,
                meta: TreeMeta::Step { step_index: step },
            },
        );
        proof {
            assert(tree_models(nodes@) =~= before.push(
                TreeNodeModel {
                    node_id: step_node_id(ep@, step),
                    parent_id: episode_node_id(ep@),
                    kind: "step"@,
                    ref_id: signed_decimal(step),
                    status: step_status(*ev),
                    children_count: 0,
                    meta: MetaModel::Step(step),
                },
            ));
        }
        bump_children(nodes, parent.as_str());
    }
}

/// Sets the still active steps of episode `ep` to `status`.
fn close_steps(nodes: &mut Vec<TreeNode>, ep: &str, status: &str)
    ensures
        tree_models(final(nodes)@) == tree_close_steps(tree_models(old(nodes)@), ep@, status@),
{
    let parent = prefixed("episode:", ep);
    let ghost old_nodes = nodes@;
    let ghost target = tree_close_steps(tree_models(old_nodes), ep@, status@);
    let mut i: usize = 0;
    while i < nodes.len()
        invariant
            i <= nodes@.len(),
            nodes@.len() == old_nodes.len(),
            parent@ == episode_node_id(ep@),
            target == tree_close_steps(tree_models(old_nodes), ep@, status@),
            forall|j: int| 0 <= j < i ==> #[trigger] nodes@[j]@ == target[j],
            forall|j: int| i <= j < nodes@.len() ==> #[trigger] nodes@[j] == old_nodes[j],
        decreases nodes@.len() - i,
    {
        if str_eq(nodes[i].parent_id.as_str(), parent.as_str()) && str_eq(nodes[i].kind.as_str(), "step") && str_eq(
            nodes[i].status.as_str(),
            "ACTIVE",
        ) {
            nodes[i].status = status.to_string();
        }
        i = i + 1;
    }
    proof {
        assert(tree_models(nodes@) =~= target);
    }
}

/// What an event does to an episode already in the run.
#[derive(Debug, Clone, Copy)]
pub enum EpisodeTouch {
    /// Scheduling: the episode is being dispatched.
    Scheduled,
    /// Dispatch or attempt start: the episode executes on a worker.
    Dispatched,
    /// A step started or completed.
    Stepped(i32),
    /// The result arrived and is being reported.
    Reporting,
    /// The episode ended, failed or done.
    Finished { failed: bool },
    /// An attempt was closed.
    AttemptClosed,
}

/// An episode as a new submission records it.
pub open spec fn new_episode(ev: ObservabilityEvent, ep: Seq<char>, event_seq: u64) -> EpisodeModel {
    EpisodeModel {
        episode_id: ep,
        correlation_id: ev.correlation_id@,
        attempt_id: match ev.attempt_id {
            Some(a) => a,
            None => 1,
        },
        worker_id: or_empty(opt_view(ev.worker_id)),
        env_type: or_empty(opt_view(ev.env_type)),
        step_index: 0,
        status: "ACTIVE"@,
        stage: "SUBMIT"@,
        event_seq,
        last_source_ts: ev.source_ts,
        trajectory_id: None,
    }
}

/// An episode with a new status and stage, stamped by the event.
pub open spec fn episode_refreshed(e: EpisodeModel, status: Seq<char>, stage: Seq<char>, ev: ObservabilityEvent, event_seq: u64) -> EpisodeModel {
    EpisodeModel { status, stage, event_seq, last_source_ts: ev.source_ts, ..e }
}

/// The status a finished episode ends in.
pub open spec fn finish_status(failed: bool) -> Seq<char> {
    if failed { "FAILED"@ } else { "DONE"@ }
}

/// An episode after an event touched it: the event's number and source time
/// are recorded, and
/// - scheduling puts it in the dispatch stage;
/// - dispatch puts it in the execute stage, with the event's attempt and
///   worker when the event names them;
/// - a step keeps it executing at that step;
/// - reporting puts it in the report stage;
/// - finishing gives it the final status as status and stage, and the
///   trajectory the event's payload names, if any;
/// - closing an attempt changes nothing else.
pub open spec fn touched_episode(
    e: EpisodeModel,
    touch: EpisodeTouch,
    ev: ObservabilityEvent,
    event_seq: u64,
    trajectory: Option<Seq<char>>,
) -> EpisodeModel {
    match touch {
        EpisodeTouch::Scheduled => episode_refreshed(e, "ACTIVE"@, "DISPATCH"@, ev, event_seq),
        EpisodeTouch::Dispatched => EpisodeModel {
            attempt_id: match ev.attempt_id {
                Some(a) => a,
                None => e.attempt_id,
            },
            worker_id: match ev.worker_id {
                Some(w) => w@,
                None => e.worker_id,
            },
            ..episode_refreshed(e, "ACTIVE"@, "EXECUTE"@, ev, event_seq)
        },
        EpisodeTouch::Stepped(step) => EpisodeModel {
            step_index: step,
            ..episode_refreshed(e, "ACTIVE"@, "EXECUTE"@, ev, event_seq)
        },
        EpisodeTouch::Reporting => episode_refreshed(e, "ACTIVE"@, "REPORT"@, ev, event_seq),
        EpisodeTouch::Finished { failed } => EpisodeModel {
            trajectory_id: match trajectory {
                Some(t) => Some(t),
                None => e.trajectory_id,
            },
            ..episode_refreshed(e, finish_status(failed), finish_status(failed), ev, event_seq)
        },
        EpisodeTouch::AttemptClosed => EpisodeModel { event_seq, last_source_ts: ev.source_ts, ..e },
    }
}

/// A run after an event touched episode `ep`; an episode the run does not
/// know is left out.
pub open spec fn episode_touched(
    m: ChainModel,
    ep: Seq<char>,
    touch: EpisodeTouch,
    ev: ObservabilityEvent,
    event_seq: u64,
    trajectory: Option<Seq<char>>,
) -> ChainModel {
    if m.episodes.contains_key(ep) {
        ChainModel { episodes: m.episodes.insert(ep, touched_episode(m.episodes[ep], touch, ev, event_seq, trajectory)), ..m }
    } else {
        m
    }
}

/// Records a submitted episode.
fn submit_episode(state: &mut ChainState, ep: &str, ev: &ObservabilityEvent, event_seq: u64)
    ensures
        final(state)@ == (ChainModel { episodes: old(state)@.episodes.insert(ep@, new_episode(*ev, ep@, event_seq)), ..old(state)@ }),
{
    let view = EpisodeView {
        episode_id: ep.to_string(),
        correlation_id: ev.correlation_id.clone(),
        attempt_id: match ev.attempt_id {
            Some(a) => a,
            None => 1,
        },
        worker_id: match &ev.worker_id {
            Some(w) => w.clone(),
            None => String::new(),
        },
        env_type: match &ev.env_type {
            Some(t) => t.clone(),
            None => String::new(),
        },
        step_index: 0,
        status: "ACTIVE".to_string(),
        stage: "SUBMIT".to_string(),
        event_seq,
        last_source_ts: ev.source_ts,
        trajectory_id: None,
    };
    let ghost m = state@;
    state.episodes.insert(ep.to_string(), view);
    proof {
        assert(state@.episodes =~= m.episodes.insert(ep@, new_episode(*ev, ep@, event_seq)));
        assert(state@ =~= (ChainModel { episodes: m.episodes.insert(ep@, new_episode(*ev, ep@, event_seq)), ..m }));
    }
}

/// Applies an event's touch to episode `ep` (see `episode_touched`).
fn touch_episode(
    state: &mut ChainState,
    ep: &str,
    touch: EpisodeTouch,
    ev: &ObservabilityEvent,
    event_seq: u64,
    trajectory: Option<String>,
)
    ensures
        final(state)@ == episode_touched(old(state)@, ep@, touch, *ev, event_seq, opt_view(trajectory)),
{
    let ghost m = state@;
    match state.episodes.remove(ep) {
        Some(mut e) => {
            let ghost before = e@;
            match touch {
                EpisodeTouch::Scheduled => {
                    e.status = "ACTIVE".to_string();
                    e.stage = "DISPATCH".to_string();
                },
                EpisodeTouch::Dispatched => {
                    match ev.attempt_id {
                        Some(a) => {
                            e.attempt_id = a;
                        },
                        None => {},
                    }
                    match &ev.worker_id {
                        Some(w) => {
                            e.worker_id = w.clone();
                        },
                        None => {},
                    }
                    e.status = "ACTIVE".to_string();
                    e.stage = "EXECUTE".to_string();
                },
                EpisodeTouch::Stepped(step) => {
                    e.step_index = step;
                    e.status = "ACTIVE".to_string();
                    e.stage = "EXECUTE".to_string();
                },
                EpisodeTouch::Reporting => {
                    e.status = "ACTIVE".to_string();
                    e.stage = "REPORT".to_string();
                },
                EpisodeTouch::Finished { failed } => {
                    let st = if failed { "FAILED" } else { "DONE" };
                    e.status = st.to_string();
                    e.stage = st.to_string();
                    match trajectory {
                        Some(t) => {
                            e.trajectory_id = Some(t);
                        },
                        None => {},
                    }
                },
                EpisodeTouch::AttemptClosed => {},
            }
            e.event_seq = event_seq;
            e.last_source_ts = ev.source_ts;
            proof {
                assert(e@ == touched_episode(before, touch, *ev, event_seq, opt_view(trajectory)));
            }
            state.episodes.insert(ep.to_string(), e);
            proof {
                assert(state@.episodes =~= m.episodes.insert(
                    ep@,
                    touched_episode(m.episodes[ep@], touch, *ev, event_seq, opt_view(trajectory)),
                ));
                assert(state@ =~= episode_touched(m, ep@, touch, *ev, event_seq, opt_view(trajectory)));
            }
        },
        None => {
            proof {
                assert(state@.episodes =~= m.episodes);
                assert(state@ =~= m);
            }
        },
    }
}

/// A worker first seen with `status` and nothing else known of it.
pub open spec fn fresh_worker(w: Seq<char>, status: Seq<char>) -> WorkerModel {
    WorkerModel {
        worker_id: w,
        active_episodes: Seq::empty(),
        env_instances: Seq::empty(),
        last_heartbeat_ts: 0,
        status,
        status_reason: Seq::empty(),
        status_changed_ts: 0,
        current_load: 0,
        capacity: 0,
        endpoint: Seq::empty(),
        supported_env_types: Seq::empty(),
    }
}

/// Worker `w` of the run, or a fresh one with `status` if the run has none.
pub open spec fn worker_or_fresh(m: ChainModel, w: Seq<char>, status: Seq<char>) -> WorkerModel {
    if m.workers.contains_key(w) { m.workers[w] } else { fresh_worker(w, status) }
}

/// The run after episode `ep` was dispatched to worker `w`: the worker
/// (fresh and active if new) lists the episode among its active ones once.
pub open spec fn worker_took(m: ChainModel, w: Seq<char>, ep: Seq<char>) -> ChainModel {
    let b = worker_or_fresh(m, w, "ACTIVE"@);
    ChainModel {
        workers: m.workers.insert(
            w,
            WorkerModel {
                active_episodes: if b.active_episodes.contains(ep) { b.active_episodes } else { b.active_episodes.push(ep) },
                ..b
            },
        ),
        ..m
    }
}

/// The list without the occurrences of `x`.
pub open spec fn without(s: Seq<Seq<char>>, x: Seq<char>) -> Seq<Seq<char>>
    decreases s.len(),
{
    if s.len() == 0 {
        s
    } else {
        let r = without(s.drop_last(), x);
        if s.last() == x { r } else { r.push(s.last()) }
    }
}

/// The run after worker `w`, if the run has it, no longer lists episode
/// `ep` as active.
pub open spec fn worker_released(m: ChainModel, w: Seq<char>, ep: Seq<char>) -> ChainModel {
    if m.workers.contains_key(w) {
        ChainModel {
            workers: m.workers.insert(w, WorkerModel { active_episodes: without(m.workers[w].active_episodes, ep), ..m.workers[w] }),
            ..m
        }
    } else {
        m
    }
}

/// The run after worker `w` registered or sent a heartbeat: the worker
/// (fresh if new) records the event's time as its last heartbeat;
/// registering makes it active, a heartbeat makes it active only if it had
/// no status yet.
pub open spec fn worker_heard(m: ChainModel, w: Seq<char>, ev: ObservabilityEvent) -> ChainModel {
    let b = worker_or_fresh(m, w, Seq::empty());
    ChainModel {
        workers: m.workers.insert(
            w,
            WorkerModel {
                last_heartbeat_ts: ev.source_ts,
                status: if ev.event_type@ == "WORKER_REGISTERED"@ || b.status.len() == 0 { "ACTIVE"@ } else { b.status },
                ..b
            },
        ),
        ..m
    }
}

pub(crate) fn fresh_worker_view(w: &str, status: &str) -> (v: WorkerView)
    ensures
        v@ == fresh_worker(w@, status@),
{
    let v = WorkerView {
        worker_id: w.to_string(),
        active_episodes: Vec::new(),
        env_instances: Vec::new(),
        last_heartbeat_ts: 0,
        status: status.to_string(),
        status_reason: String::new(),
        status_changed_ts: 0,
        current_load: 0,
        capacity: 0,
        endpoint: String::new(),
        supported_env_types: Vec::new(),
    };
    proof {
        assert(strs(v.active_episodes@) =~= Seq::<Seq<char>>::empty());
        assert(strs(v.env_instances@) =~= Seq::<Seq<char>>::empty());
        assert(strs(v.supported_env_types@) =~= Seq::<Seq<char>>::empty());
        assert(v@ =~= fresh_worker(w@, status@));
    }
    v
}

/// Takes worker `w` out of the run for an update, a fresh one with
/// `status` if the run has none.
fn take_worker(state: &mut ChainState, w: &str, status: &str) -> (v: WorkerView)
    ensures
        v@ == worker_or_fresh(old(state)@, w@, status@),
        final(state)@ == (ChainModel { workers: old(state)@.workers.remove(w@), ..old(state)@ }),
{
    let ghost m = state@;
    let r = state.workers.remove(w);
    proof {
        assert(state@ =~= (ChainModel { workers: m.workers.remove(w@), ..m }));
    }
    match r {
        Some(v) => v,
        None => fresh_worker_view(w, status),
    }
}

/// Records that episode `ep` runs on worker `w` (see `worker_took`).
fn dispatch_to_worker(state: &mut ChainState, w: &str, ep: &str)
    ensures
        final(state)@ == worker_took(old(state)@, w@, ep@),
{
    let ghost m = state@;
    let mut v = take_worker(state, w, "ACTIVE");
    let ghost b = v@;
    if !holds(&v.active_episodes, ep) {
        v.active_episodes.push(ep.to_string());
        proof {
            assert(strs(v.active_episodes@) =~= b.active_episodes.push(ep@));
        }
    }
    proof {
        assert(v@ =~= (WorkerModel {
            active_episodes: if b.active_episodes.contains(ep@) { b.active_episodes } else { b.active_episodes.push(ep@) },
            ..b
        }));
    }
    let ghost mid = state@;
    let ghost vv = v@;
    state.workers.insert(w.to_string(), v);
    proof {
        assert(state@.workers =~= mid.workers.insert(w@, vv));
        assert(state@.workers =~= worker_took(m, w@, ep@).workers);
        assert(state@ =~= worker_took(m, w@, ep@));
    }
}

/// The list without the occurrences of `x`, in order.
fn strings_without(list: &Vec<String>, x: &str) -> (r: Vec<String>)
    ensures
        strs(r@) == without(strs(list@), x@),
{
    let ghost s = strs(list@);
    let mut r: Vec<String> = Vec::new();
    let mut i: usize = 0;
    while i < list.len()
        invariant
            i <= list@.len(),
            s == strs(list@),
            strs(r@) == without(s.take(i as int), x@),
        decreases list@.len() - i,
    {
        proof {
            assert(s.take(i + 1).drop_last() =~= s.take(i as int));
        }
        if !str_eq(list[i].as_str(), x) {
            let ghost before = strs(r@);
            r.push(list[i].clone());
            proof {
                assert(strs(r@) =~= before.push(s[i as int]));
            }
        }
        i = i + 1;
    }
    proof {
        assert(s.take(i as int) =~= s);
    }
    r
}

/// Records that worker `w` no longer runs episode `ep` (see `worker_released`).
fn release_from_worker(state: &mut ChainState, w: &str, ep: &str)
    ensures
        final(state)@ == worker_released(old(state)@, w@, ep@),
{
    let ghost m = state@;
    match state.workers.remove(w) {
        Some(mut v) => {
            let ghost b = v@;
            let kept = strings_without(&v.active_episodes, ep);
            v.active_episodes = kept;
            proof {
                assert(v@ =~= (WorkerModel { active_episodes: without(b.active_episodes, ep@), ..b }));
            }
            state.workers.insert(w.to_string(), v);
            proof {
                assert(state@.workers =~= worker_released(m, w@, ep@).workers);
                assert(state@ =~= worker_released(m, w@, ep@));
            }
        },
        None => {
            proof {
                assert(state@ =~= m);
            }
        },
    }
}

/// Records a worker's registration or heartbeat (see `worker_heard`).
fn hear_worker(state: &mut ChainState, w: &str, ev: &ObservabilityEvent)
    ensures
        final(state)@ == worker_heard(old(state)@, w@, *ev),
{
    let ghost m = state@;
    let mut v = take_worker(state, w, "");
    proof {
        reveal_strlit("");
    }
    let ghost b = v@;
    v.last_heartbeat_ts = ev.source_ts;
    if str_eq(ev.event_type.as_str(), "WORKER_REGISTERED") || v.status.as_str().is_empty() {
        v.status = "ACTIVE".to_string();
    }
    let ghost mid = state@;
    let ghost vv = v@;
    state.workers.insert(w.to_string(), v);
    proof {
        assert(state@.workers =~= mid.workers.insert(w@, vv));
        assert(state@.workers =~= worker_heard(m, w@, *ev).workers);
        assert(state@ =~= worker_heard(m, w@, *ev));
    }
}

/// The trajectory an event's payload names (`trajectory_id`), if any.
pub open spec fn event_trajectory(ev: ObservabilityEvent) -> Option<Seq<char>> {
    match ev.payload {
        Some(b) => payload_str_field(b@, "trajectory_id"@),
        None => None,
    }
}

/// Does a finishing event leave episode `ep` failed? A failure does, and so
/// does the close of an episode that had failed.
pub open spec fn finishes_failed(m: ChainModel, ep: Seq<char>, ev: ObservabilityEvent) -> bool {
    ev.event_type@ == "EPISODE_FAILED"@ || (ev.event_type@ == "EPISODE_CLOSED"@ && m.episodes.contains_key(ep)
        && m.episodes[ep].status == "FAILED"@)
}

/// The run after an event shows episode `ep` in the tree with `status`.
pub open spec fn with_episode_node(m: ChainModel, ep: Seq<char>, ev: ObservabilityEvent, status: Seq<char>) -> ChainModel {
    ChainModel { tree: tree_upsert_episode(m.tree, m.training_run_id, ep, ev, status), ..m }
}

/// The run after an event shows worker `w` active in the tree.
pub open spec fn with_worker_node(m: ChainModel, w: Seq<char>) -> ChainModel {
    ChainModel { tree: tree_upsert_worker(m.tree, m.training_run_id, w, "ACTIVE"@), ..m }
}

/// The event types whose merge pushes the run's state to subscribers.
pub open spec fn projected_type(t: Seq<char>) -> bool {
    t == "RUN_STARTED"@ || t == "RUN_STOPPED"@ || t == "RUN_CLOSED"@ || t == "EPISODE_SUBMITTED"@ || t
        == "EPISODE_SCHEDULING"@ || t == "EPISODE_DISPATCHED"@ || t == "ATTEMPT_STARTED"@ || t == "STEP_STARTED"@ || t
        == "STEP_COMPLETE"@ || t == "EPISODE_REPORTING"@ || t == "EPISODE_COMPLETED"@ || t == "EPISODE_FAILED"@ || t
        == "EPISODE_CLOSED"@ || t == "ATTEMPT_CLOSED"@ || t == "WORKER_REGISTERED"@
}

/// A run's state after merging an event numbered `event_seq` in the run:
/// - run events set the run's state (RUNNING, STOPPING, CLOSED) and its tree
///   node; a start makes submit the active stage, a close ends the done stage;
/// - a submission records the episode, marks submit done and dispatch active,
///   counts the episode at submit and shows it in the tree;
/// - scheduling, dispatch (or an attempt start), steps and reporting move a
///   known episode on, update the stages they concern, count the episode
///   there and show it (or its step) in the tree; a dispatch also lists the
///   episode on the event's worker and shows that worker;
/// - completion, failure and close finish the episode (failed on a failure,
///   or on the close of a failed episode), release it from its worker, end
///   the execute, report and done stages, count it at report and done, and
///   close its active steps in the tree;
/// - closing an attempt only stamps the episode;
/// - registration and heartbeats update the worker and show it in the tree;
/// - any other event leaves the run as it is.
pub open spec fn projected(m: ChainModel, ev: ObservabilityEvent, event_seq: u64) -> ChainModel {
    let t = ev.event_type@;
    let run = m.training_run_id;
    let ep = episode_key(ev);
    if t == "RUN_STARTED"@ {
        workflow_active(
            ChainModel { run_state: "RUNNING"@, tree: tree_with_status(m.tree, run_node_id(run), "ACTIVE"@), ..m },
            "submit"@,
            "ACTIVE"@,
            ev,
        )
    } else if t == "RUN_STOPPED"@ {
        ChainModel { run_state: "STOPPING"@, tree: tree_with_status(m.tree, run_node_id(run), "ACTIVE"@), ..m }
    } else if t == "RUN_CLOSED"@ {
        ChainModel {
            run_state: "CLOSED"@,
            tree: tree_with_status(m.tree, run_node_id(run), "CLOSED"@),
            stages: with_stage_status(m.stages, "done"@, "DONE"@),
            ..m
        }
    } else if t == "EPISODE_SUBMITTED"@ {
        let m1 = ChainModel { episodes: m.episodes.insert(ep, new_episode(ev, ep, event_seq)), ..m };
        let m2 = workflow_active(workflow_active(m1, "submit"@, "DONE"@, ev), "dispatch"@, "ACTIVE"@, ev);
        with_episode_node(counted(m2, "submit"@, ep), ep, ev, "ACTIVE"@)
    } else if t == "EPISODE_SCHEDULING"@ {
        let m1 = episode_touched(m, ep, EpisodeTouch::Scheduled, ev, event_seq, None);
        let m2 = workflow_active(m1, "dispatch"@, "ACTIVE"@, ev);
        with_episode_node(counted(m2, "dispatch"@, ep), ep, ev, "ACTIVE"@)
    } else if t == "EPISODE_DISPATCHED"@ || t == "ATTEMPT_STARTED"@ {
        let m1 = episode_touched(m, ep, EpisodeTouch::Dispatched, ev, event_seq, None);
        let m2 = match ev.worker_id {
            Some(w) => with_worker_node(worker_took(m1, w@, ep), w@),
            None => m1,
        };
        let m3 = workflow_active(workflow_active(m2, "dispatch"@, "DONE"@, ev), "execute"@, "ACTIVE"@, ev);
        with_episode_node(counted(counted(m3, "dispatch"@, ep), "execute"@, ep), ep, ev, "ACTIVE"@)
    } else if t == "STEP_STARTED"@ || t == "STEP_COMPLETE"@ {
        let step = match ev.step_index {
            Some(s) => s,
            None => 0,
        };
        let m1 = episode_touched(m, ep, EpisodeTouch::Stepped(step), ev, event_seq, None);
        let m2 = counted(workflow_active(m1, "execute"@, "ACTIVE"@, ev), "execute"@, ep);
        ChainModel { tree: tree_upsert_step(m2.tree, run, ep, step, ev), ..m2 }
    } else if t == "EPISODE_REPORTING"@ {
        let m1 = episode_touched(m, ep, EpisodeTouch::Reporting, ev, event_seq, None);
        let m2 = workflow_active(workflow_active(m1, "execute"@, "DONE"@, ev), "report"@, "ACTIVE"@, ev);
        with_episode_node(counted(m2, "report"@, ep), ep, ev, "ACTIVE"@)
    } else if t == "EPISODE_COMPLETED"@ || t == "EPISODE_FAILED"@ || t == "EPISODE_CLOSED"@ {
        let failed = finishes_failed(m, ep, ev);
        let st = finish_status(failed);
        let m1 = episode_touched(m, ep, EpisodeTouch::Finished { failed }, ev, event_seq, event_trajectory(ev));
        let m2 = if m1.episodes.contains_key(ep) && m1.episodes[ep].worker_id.len() > 0 {
            worker_released(m1, m1.episodes[ep].worker_id, ep)
        } else {
            m1
        };
        let m3 = workflow_active(
            workflow_active(workflow_active(m2, "execute"@, "DONE"@, ev), "report"@, "DONE"@, ev),
            "done"@,
            st,
            ev,
        );
        let m4 = with_episode_node(counted(counted(m3, "report"@, ep), "done"@, ep), ep, ev, st);
        ChainModel { tree: tree_close_steps(m4.tree, ep, st), ..m4 }
    } else if t == "ATTEMPT_CLOSED"@ {
        episode_touched(m, ep, EpisodeTouch::AttemptClosed, ev, event_seq, None)
    } else if t == "WORKER_REGISTERED"@ || t == "WORKER_HEARTBEAT"@ {
        let w = match ev.worker_id {
            Some(w) => w@,
            None => ev.entity_id@,
        };
        with_worker_node(worker_heard(m, w, ev), w)
    } else {
        m
    }
}

/// What a delta carries: the run's state fields (`run_state`, `workflow`,
/// `tree`, `episodes`, `workers`, `updated_at`), or only the time it was
/// updated.
#[derive(Debug, Clone, Copy)]
pub enum DeltaPatch {
    RunState,
    UpdatedAt(i64),
}

/// An update of a run's state pushed to subscribers.
#[derive(Debug, Clone)]
pub struct StateDelta {
    pub training_run_id: String,
    pub event_seq: u64,
    pub entity_key: String,
    pub patch: DeltaPatch,
    pub source_ts: i64,
    pub ingest_ts: i64,
    pub cursor: EventCursor,
}

/// The delta a merged event gives: none for a heartbeat; otherwise one for
/// the run, numbered by the run, with the event's source time, the ingest
/// time and the run's cursor, carrying the run's state fields for the event
/// types `projected` handles and only the update time for others.
pub open spec fn delta_for(
    d: Option<StateDelta>,
    run: Seq<char>,
    ev: ObservabilityEvent,
    ingest_ts: i64,
    event_seq: u64,
    cursor: CursorModel,
) -> bool {
    match d {
        None => ev.event_type@ == "WORKER_HEARTBEAT"@,
        Some(d) => {
            &&& ev.event_type@ != "WORKER_HEARTBEAT"@
            &&& d.training_run_id@ == run
            &&& d.event_seq == event_seq
            &&& d.entity_key@ == "run"@
            &&& d.source_ts == ev.source_ts
            &&& d.ingest_ts == ingest_ts
            &&& d.cursor@ == cursor
            &&& d.patch == (if projected_type(ev.event_type@) { DeltaPatch::RunState } else { DeltaPatch::UpdatedAt(ingest_ts) })
        },
    }
}

/// Shows episode `ep` in the tree with `status`.
fn show_episode(state: &mut ChainState, ep: &str, ev: &ObservabilityEvent, status: &str)
    ensures
        final(state)@ == with_episode_node(old(state)@, ep@, *ev, status@),
{
    let run = state.training_run_id.clone();
    upsert_episode_node(&mut state.tree.nodes, run.as_str(), ep, ev, status);
    proof {
        assert(state@ =~= with_episode_node(old(state)@, ep@, *ev, status@));
    }
}

/// Shows worker `w` active in the tree.
fn show_worker(state: &mut ChainState, w: &str)
    ensures
        final(state)@ == with_worker_node(old(state)@, w@),
{
    let run = state.training_run_id.clone();
    upsert_worker_node(&mut state.tree.nodes, run.as_str(), w, "ACTIVE");
    proof {
        assert(state@ =~= with_worker_node(old(state)@, w@));
    }
}

/// Sets the status of the run's own tree node.
fn set_run_node(state: &mut ChainState, status: &str)
    ensures
        final(state)@ == (ChainModel {
            tree: tree_with_status(old(state)@.tree, run_node_id(old(state)@.training_run_id), status@),
            ..old(state)@
        }),
{
    let id = prefixed("run:", state.training_run_id.as_str());
    set_tree_status(&mut state.tree.nodes, id.as_str(), status);
    proof {
        assert(state@ =~= (ChainModel {
            tree: tree_with_status(old(state)@.tree, run_node_id(old(state)@.training_run_id), status@),
            ..old(state)@
        }));
    }
}

/// A heartbeat is none of the event types that `projected` pushes.
proof fn lemma_heartbeat_not_projected()
    ensures
        !projected_type("WORKER_HEARTBEAT"@),
{
    reveal_strlit("WORKER_HEARTBEAT");
    reveal_strlit("RUN_STARTED");
    assert("WORKER_HEARTBEAT"@.len() != "RUN_STARTED"@.len());
    reveal_strlit("RUN_STOPPED");
    assert("WORKER_HEARTBEAT"@.len() != "RUN_STOPPED"@.len());
    reveal_strlit("RUN_CLOSED");
    assert("WORKER_HEARTBEAT"@.len() != "RUN_CLOSED"@.len());
    reveal_strlit("EPISODE_SUBMITTED");
    assert("WORKER_HEARTBEAT"@.len() != "EPISODE_SUBMITTED"@.len());
    reveal_strlit("EPISODE_SCHEDULING");
    assert("WORKER_HEARTBEAT"@.len() != "EPISODE_SCHEDULING"@.len());
    reveal_strlit("EPISODE_DISPATCHED");
    assert("WORKER_HEARTBEAT"@.len() != "EPISODE_DISPATCHED"@.len());
    reveal_strlit("ATTEMPT_STARTED");
    assert("WORKER_HEARTBEAT"@.len() != "ATTEMPT_STARTED"@.len());
    reveal_strlit("STEP_STARTED");
    assert("WORKER_HEARTBEAT"@.len() != "STEP_STARTED"@.len());
    reveal_strlit("STEP_COMPLETE");
    assert("WORKER_HEARTBEAT"@.len() != "STEP_COMPLETE"@.len());
    reveal_strlit("EPISODE_REPORTING");
    assert("WORKER_HEARTBEAT"@.len() != "EPISODE_REPORTING"@.len());
    reveal_strlit("EPISODE_COMPLETED");
    assert("WORKER_HEARTBEAT"@.len() != "EPISODE_COMPLETED"@.len());
    reveal_strlit("EPISODE_FAILED");
    assert("WORKER_HEARTBEAT"@.len() != "EPISODE_FAILED"@.len());
    reveal_strlit("EPISODE_CLOSED");
    assert("WORKER_HEARTBEAT"@.len() != "EPISODE_CLOSED"@.len());
    reveal_strlit("ATTEMPT_CLOSED");
    assert("WORKER_HEARTBEAT"@.len() != "ATTEMPT_CLOSED"@.len());
    reveal_strlit("WORKER_REGISTERED");
    assert("WORKER_HEARTBEAT"@.len() != "WORKER_REGISTERED"@.len());
}

/// Merges an event numbered `event_seq` into a run's state (see
/// `projected`) and gives the delta to push: none for a heartbeat, the
/// run's state fields for the event types `projected` handles, and only the
/// update time for any other event.
pub fn project_event(state: &mut ChainState, run_id: &str, ev: &ObservabilityEvent, ingest_ts: i64, event_seq: u64) -> (d: Option<StateDelta>)
    ensures
        final(state)@ == projected(old(state)@, *ev, event_seq),
        delta_for(d, run_id@, *ev, ingest_ts, event_seq, final(state)@.cursor),
{
    let ghost m = state@;
    let t = ev.event_type.as_str();
    let ep: String = match &ev.episode_id {
        Some(e) => e.clone(),
        None => ev.entity_id.clone(),
    };
    let ep = ep.as_str();
    let mut full = true;
    if str_eq(t, "RUN_STARTED") {
        state.run_state = "RUNNING".to_string();
        set_run_node(state, "ACTIVE");
        set_workflow_active(state, "submit", "ACTIVE", ev);
    } else if str_eq(t, "RUN_STOPPED") {
        state.run_state = "STOPPING".to_string();
        set_run_node(state, "ACTIVE");
    } else if str_eq(t, "RUN_CLOSED") {
        state.run_state = "CLOSED".to_string();
        set_run_node(state, "CLOSED");
        set_stage_status(&mut state.workflow.nodes, "done", "DONE");
    } else if str_eq(t, "EPISODE_SUBMITTED") {
        submit_episode(state, ep, ev, event_seq);
        set_workflow_active(state, "submit", "DONE", ev);
        set_workflow_active(state, "dispatch", "ACTIVE", ev);
        count_stage(state, "submit", ep);
        show_episode(state, ep, ev, "ACTIVE");
    } else if str_eq(t, "EPISODE_SCHEDULING") {
        touch_episode(state, ep, EpisodeTouch::Scheduled, ev, event_seq, None);
        set_workflow_active(state, "dispatch", "ACTIVE", ev);
        count_stage(state, "dispatch", ep);
        show_episode(state, ep, ev, "ACTIVE");
    } else if str_eq(t, "EPISODE_DISPATCHED") || str_eq(t, "ATTEMPT_STARTED") {
        touch_episode(state, ep, EpisodeTouch::Dispatched, ev, event_seq, None);
        match &ev.worker_id {
            Some(w) => {
                dispatch_to_worker(state, w.as_str(), ep);
                show_worker(state, w.as_str());
            },
            None => {},
        }
        set_workflow_active(state, "dispatch", "DONE", ev);
        set_workflow_active(state, "execute", "ACTIVE", ev);
        count_stage(state, "dispatch", ep);
        count_stage(state, "execute", ep);
        show_episode(state, ep, ev, "ACTIVE");
    } else if str_eq(t, "STEP_STARTED") || str_eq(t, "STEP_COMPLETE") {
        let step: i32 = match ev.step_index {
            Some(s) => s,
            None => 0,
        };
        touch_episode(state, ep, EpisodeTouch::Stepped(step), ev, event_seq, None);
        set_workflow_active(state, "execute", "ACTIVE", ev);
        count_stage(state, "execute", ep);
        let run = state.training_run_id.clone();
        upsert_step_node(&mut state.tree.nodes, run.as_str(), ep, step, ev);
    } else if str_eq(t, "EPISODE_REPORTING") {
        touch_episode(state, ep, EpisodeTouch::Reporting, ev, event_seq, None);
        set_workflow_active(state, "execute", "DONE", ev);
        set_workflow_active(state, "report", "ACTIVE", ev);
        count_stage(state, "report", ep);
        show_episode(state, ep, ev, "ACTIVE");
    } else if str_eq(t, "EPISODE_COMPLETED") || str_eq(t, "EPISODE_FAILED") || str_eq(t, "EPISODE_CLOSED") {
        let failed = str_eq(t, "EPISODE_FAILED") || (str_eq(t, "EPISODE_CLOSED") && match state.episodes.get(ep) {
            Some(e) => str_eq(e.status.as_str(), "FAILED"),
            None => false,
        });
        let st = if failed { "FAILED" } else { "DONE" };
        let trajectory = match &ev.payload {
            Some(b) => json_str_field(b, "trajectory_id"),
            None => None,
        };
        touch_episode(state, ep, EpisodeTouch::Finished { failed }, ev, event_seq, trajectory);
        let worker: Option<String> = match state.episodes.get(ep) {
            Some(e) => if e.worker_id.as_str().is_empty() { None } else { Some(e.worker_id.clone()) },
            None => None,
        };
        match worker {
            Some(w) => release_from_worker(state, w.as_str(), ep),
            None => {},
        }
        set_workflow_active(state, "execute", "DONE", ev);
        set_workflow_active(state, "report", "DONE", ev);
        set_workflow_active(state, "done", st, ev);
        count_stage(state, "report", ep);
        count_stage(state, "done", ep);
        show_episode(state, ep, ev, st);
        close_steps(&mut state.tree.nodes, ep, st);
    } else if str_eq(t, "ATTEMPT_CLOSED") {
        touch_episode(state, ep, EpisodeTouch::AttemptClosed, ev, event_seq, None);
    } else if str_eq(t, "WORKER_REGISTERED") || str_eq(t, "WORKER_HEARTBEAT") {
        let w: String = match &ev.worker_id {
            Some(w) => w.clone(),
            None => ev.entity_id.clone(),
        };
        hear_worker(state, w.as_str(), ev);
        show_worker(state, w.as_str());
        if str_eq(t, "WORKER_HEARTBEAT") {
            return None;
        }
    } else {
        full = false;
    }
    proof {
        lemma_heartbeat_not_projected();
    }
    let patch = if full { DeltaPatch::RunState } else { DeltaPatch::UpdatedAt(ingest_ts) };
    Some(StateDelta {
        training_run_id: run_id.to_string(),
        event_seq,
        entity_key: "run".to_string(),
        patch,
        source_ts: ev.source_ts,
        ingest_ts,
        cursor: EventCursor {
            last_event_id: state.cursor.last_event_id.clone(),
            last_source_id: state.cursor.last_source_id.clone(),
            last_seq: state.cursor.last_seq,
            last_ingest_ts: state.cursor.last_ingest_ts,
        },
    })
}

/// A run's state once an accepted event is counted in it: its event counter
/// moves on (wrapping at the top), it is stamped with the ingest time, and
/// its cursor points at the event.
pub open spec fn stamped(m: ChainModel, ev: ObservabilityEvent, ingest_ts: i64) -> ChainModel {
    ChainModel {
        global_event_seq: if m.global_event_seq == u64::MAX { 0 } else { (m.global_event_seq + 1) as u64 },
        updated_at: ingest_ts,
        cursor: CursorModel { last_event_id: ev.event_id@, last_source_id: ev.source_id@, last_seq: ev.seq, last_ingest_ts: ingest_ts },
        ..m
    }
}

/// What merging an event reports.
#[derive(Debug)]
pub struct MergeOutcome {
    pub disposition: Disposition,
    pub training_run_id: String,
    pub delta: Option<StateDelta>,
    pub full_hint: bool,
}

/// The merge of observability events into run states: the admission gate
/// (run lifecycles and the last number seen from each source) and the state
/// of every run an event was accepted for.
#[derive(Debug)]
pub struct MergeEngine {
    gate: MergeGate,
    runs: KeyedTable<ChainState>,
}

impl MergeEngine {
    /// The states of the runs, by run id.
    pub closed spec fn runs_spec(&self) -> Map<Seq<char>, ChainModel> {
        self.runs@.map_values(|s: ChainState| s@)
    }

    /// Lifecycle (phase, closed) of each run seen so far.
    pub closed spec fn lifecycles(&self) -> Map<Seq<char>, (RunPhase, bool)> {
        self.gate.lifecycles_spec()
    }

    /// Last number merged from each source.
    pub closed spec fn source_seqs(&self) -> Map<Seq<char>, u64> {
        self.gate.source_seqs()
    }

    /// An engine that has merged nothing.
    pub fn new() -> (e: Self)
        ensures
            e.runs_spec() == Map::<Seq<char>, ChainModel>::empty(),
            e.lifecycles() == Map::<Seq<char>, (RunPhase, bool)>::empty(),
            e.source_seqs() == Map::<Seq<char>, u64>::empty(),
    {
        let e = MergeEngine { gate: MergeGate::new(), runs: KeyedTable::new() };
        proof {
            assert(e.runs_spec() =~= Map::<Seq<char>, ChainModel>::empty());
        }
        e
    }

    /// The state of a run, if an event was accepted for it or it was created.
    pub fn get(&self, run_id: &str) -> (r: Option<&ChainState>)
        ensures
            match r {
                Some(s) => self.runs_spec().contains_key(run_id@) && self.runs_spec()[run_id@] == s@,
                None => !self.runs_spec().contains_key(run_id@),
            },
    {
        self.runs.get(run_id)
    }

    /// The ids of the runs that have a state, in the order they were created.
    pub fn run_ids(&self) -> (ids: Vec<String>)
        ensures
            ids@.len() == self.runs_spec().dom().len(),
            forall|i: int| 0 <= i < ids@.len() ==> self.runs_spec().contains_key(#[trigger] ids@[i]@),
            forall|k: Seq<char>| #[trigger] self.runs_spec().contains_key(k) ==> exists|i: int| 0 <= i < ids@.len() && ids@[i]@ == k,
    {
        let n = self.runs.len();
        let mut ids: Vec<String> = Vec::new();
        let mut i: usize = 0;
        while i < n
            invariant
                n == self.runs.rows().len(),
                i <= n,
                ids@.len() == i,
                forall|j: int| 0 <= j < i ==> #[trigger] ids@[j]@ == self.runs.rows()[j].0,
            decreases n - i,
        {
            let (k, _) = self.runs.entry_at(i);
            ids.push(k.clone());
            i = i + 1;
        }
        proof {
            assert(self.runs_spec().dom() =~= self.runs@.dom());
            assert forall|k: Seq<char>| #[trigger] self.runs_spec().contains_key(k) implies exists|i: int|
                0 <= i < ids@.len() && ids@[i]@ == k by {
                assert(self.runs@.contains_key(k));
                let i = choose|i: int| 0 <= i < self.runs.rows().len() && self.runs.rows()[i].0 == k;
                assert(ids@[i]@ == k);
            }
            assert forall|i: int| 0 <= i < ids@.len() implies self.runs_spec().contains_key(#[trigger] ids@[i]@) by {
                assert(self.runs@.contains_key(self.runs.rows()[i].0));
            }
        }
        ids
    }

    /// The state of a run, created empty and stamped with the current time
    /// when the run has none yet.
    pub fn get_or_create(&mut self, run_id: &str) -> (r: &ChainState)
        ensures
            old(self).runs_spec().contains_key(run_id@) ==> final(self).runs_spec() == old(self).runs_spec(),
            !old(self).runs_spec().contains_key(run_id@) ==> exists|now: i64|
                final(self).runs_spec() == old(self).runs_spec().insert(run_id@, #[trigger] empty_chain(run_id@, now)),
            final(self).runs_spec().contains_key(run_id@),
            final(self).runs_spec()[run_id@] == r@,
            final(self).lifecycles() == old(self).lifecycles(),
            final(self).source_seqs() == old(self).source_seqs(),
    {
        let ghost before = self.runs_spec();
        if self.runs.get(run_id).is_none() {
            let fresh = ChainState::empty(run_id);
            let ghost fv = fresh@;
            self.runs.insert(run_id.to_string(), fresh);
            proof {
                assert(self.runs_spec() =~= before.insert(run_id@, fv));
            }
        }
        match self.runs.get(run_id) {
            Some(s) => s,
            None => {
                proof {
                    assert(false);
                }
                self.runs.get(run_id).unwrap()
            },
        }
    }

    /// Merges an event received at `ingest_ts`. Admission follows
    /// `gate_decision`; an accepted event moves its run's lifecycle and its
    /// source's number on, and its run's state (created if new) is stamped
    /// and then updated (see `stamped` and `projected`).
    pub fn apply(&mut self, ev: &ObservabilityEvent, ingest_ts: i64) -> (r: MergeOutcome)
        ensures
            r.training_run_id@ == resolved_run_id(opt_view(ev.training_run_id)),
            r.disposition == gate_decision(
                old(self).lifecycles(),
                old(self).source_seqs(),
                r.training_run_id@,
                ev.event_type@,
                ev.source_id@,
                ev.seq,
            ),
            r.disposition == Disposition::Accepted ==> {
                let run = r.training_run_id@;
                let base = if old(self).runs_spec().contains_key(run) {
                    old(self).runs_spec()[run]
                } else {
                    empty_chain(run, ingest_ts)
                };
                let s = stamped(base, *ev, ingest_ts);
                &&& final(self).source_seqs() == old(self).source_seqs().insert(ev.source_id@, ev.seq)
                &&& final(self).lifecycles() == old(self).lifecycles().insert(
                    run,
                    lifecycle_after(lifecycle_of(old(self).lifecycles(), run), ev.event_type@),
                )
                &&& final(self).runs_spec() == old(self).runs_spec().insert(run, projected(s, *ev, s.global_event_seq))
                &&& delta_for(r.delta, run, *ev, ingest_ts, s.global_event_seq, s.cursor)
                &&& r.full_hint == full_refresh_event(ev.event_type@)
            },
            r.disposition != Disposition::Accepted ==> {
                &&& final(self).source_seqs() == old(self).source_seqs()
                &&& final(self).lifecycles() == old(self).lifecycles().insert(
                    r.training_run_id@,
                    lifecycle_of(old(self).lifecycles(), r.training_run_id@),
                )
                &&& final(self).runs_spec() == old(self).runs_spec()
                &&& r.delta is None
                &&& !r.full_hint
            },
    {
        let raw: Option<&str> = match &ev.training_run_id {
            Some(s) => Some(s.as_str()),
            None => None,
        };
        proof {
            assert(opt_str_view(raw) == opt_view(ev.training_run_id));
        }
        let g = self.gate.decide(raw, ev.event_type.as_str(), ev.source_id.as_str(), ev.seq);
        if g.disposition != Disposition::Accepted {
            return MergeOutcome { disposition: g.disposition, training_run_id: g.training_run_id, delta: None, full_hint: false };
        }
        let run = g.training_run_id;
        let ghost before = self.runs_spec();
        let mut state = match self.runs.remove(run.as_str()) {
            Some(s) => s,
            None => ChainState::empty_at(run.as_str(), ingest_ts),
        };
        let ghost base = state@;
        state.global_event_seq = if state.global_event_seq == u64::MAX { 0 } else { state.global_event_seq + 1 };
        state.updated_at = ingest_ts;
        state.cursor = EventCursor {
            last_event_id: ev.event_id.clone(),
            last_source_id: ev.source_id.clone(),
            last_seq: ev.seq,
            last_ingest_ts: ingest_ts,
        };
        proof {
            assert(state@ =~= stamped(base, *ev, ingest_ts));
        }
        let event_seq = state.global_event_seq;
        let delta = project_event(&mut state, run.as_str(), ev, ingest_ts, event_seq);
        let ghost after = state@;
        self.runs.insert(run.clone(), state);
        proof {
            assert(self.runs_spec() =~= before.insert(run@, after));
        }
        MergeOutcome { disposition: Disposition::Accepted, training_run_id: run, delta, full_hint: g.full_hint }
    }
}

/// Do the stage counters agree with the episodes counted: each stage's
/// counter is the number of episodes counted there (none before the first),
/// and no episode is counted twice at a stage?
pub open spec fn counters_sound(m: ChainModel) -> bool {
    &&& forall|k: Seq<char>| #[trigger] m.seen.contains_key(k) ==> m.seen[k].no_duplicates() && m.seen[k].len() > 0
    &&& forall|i: int|
        0 <= i < m.stages.len() ==> (#[trigger] m.stages[i]).count == (if m.seen.contains_key(m.stages[i].node_id) {
            Some(m.seen[m.stages[i].node_id].len() as usize)
        } else {
            None
        })
}

/// No stage has counted as many episodes as a `usize` can hold.
pub open spec fn counters_have_room(m: ChainModel) -> bool {
    forall|k: Seq<char>| #[trigger] m.seen.contains_key(k) ==> m.seen[k].len() < usize::MAX
}

proof fn lemma_sound_workflow_active(m: ChainModel, id: Seq<char>, status: Seq<char>, ev: ObservabilityEvent)
    requires
        counters_sound(m),
    ensures
        counters_sound(workflow_active(m, id, status, ev)),
        workflow_active(m, id, status, ev).seen == m.seen,
{
    let r = workflow_active(m, id, status, ev);
    assert forall|i: int| 0 <= i < r.stages.len() implies (#[trigger] r.stages[i]).count == m.stages[i].count
        && r.stages[i].node_id == m.stages[i].node_id by {}
}

proof fn lemma_sound_stage_status(m: ChainModel, id: Seq<char>, status: Seq<char>)
    requires
        counters_sound(m),
    ensures
        counters_sound(ChainModel { stages: with_stage_status(m.stages, id, status), ..m }),
{
    let r = ChainModel { stages: with_stage_status(m.stages, id, status), ..m };
    assert forall|i: int| 0 <= i < r.stages.len() implies (#[trigger] r.stages[i]).count == m.stages[i].count
        && r.stages[i].node_id == m.stages[i].node_id by {}
}

proof fn lemma_sound_counted(m: ChainModel, stage: Seq<char>, ep: Seq<char>)
    requires
        counters_sound(m),
        seen_at(m, stage).len() < usize::MAX,
    ensures
        counters_sound(counted(m, stage, ep)),
        forall|k: Seq<char>| k != stage ==> #[trigger] seen_at(counted(m, stage, ep), k) == seen_at(m, k),
        forall|k: Seq<char>| #[trigger] counted(m, stage, ep).seen.contains_key(k) ==> counted(m, stage, ep).seen[k].len() <= m.seen[k].len()
            || k == stage,
        seen_at(counted(m, stage, ep), stage).len() <= seen_at(m, stage).len() + 1,
{
    let r = counted(m, stage, ep);
    if !(ep.len() == 0 || seen_at(m, stage).contains(ep)) {
        let s = seen_at(m, stage).push(ep);
        assert(s.no_duplicates()) by {
            assert forall|i: int, j: int| 0 <= i < s.len() && 0 <= j < s.len() && i != j implies s[i] != s[j] by {
                if i == s.len() - 1 {
                    assert(!seen_at(m, stage).contains(ep));
                    assert(seen_at(m, stage)[j] == s[j]);
                } else if j == s.len() - 1 {
                    assert(seen_at(m, stage)[i] == s[i]);
                } else {
                    assert(seen_at(m, stage)[i] == s[i] && seen_at(m, stage)[j] == s[j]);
                }
            }
        }
        assert forall|k: Seq<char>| k != stage implies #[trigger] seen_at(r, k) == seen_at(m, k) by {}
    }
}

/// Law: merging an event keeps the stage counters in agreement with the
/// episodes counted — a stage counts each episode once, however many events
/// about it arrive, and its counter is the number of episodes it counted.
pub proof fn law_stage_counters_count_distinct_episodes(m: ChainModel, ev: ObservabilityEvent, event_seq: u64)
    requires
        counters_sound(m),
        counters_have_room(m),
    ensures
        counters_sound(projected(m, ev, event_seq)),
{
    let t = ev.event_type@;
    let run = m.training_run_id;
    let ep = episode_key(ev);
    if t == "RUN_STARTED"@ {
        let m1 = ChainModel { run_state: "RUNNING"@, tree: tree_with_status(m.tree, run_node_id(run), "ACTIVE"@), ..m };
        lemma_sound_workflow_active(m1, "submit"@, "ACTIVE"@, ev);
    } else if t == "RUN_STOPPED"@ {
    } else if t == "RUN_CLOSED"@ {
        lemma_sound_stage_status(m, "done"@, "DONE"@);
    } else if t == "EPISODE_SUBMITTED"@ {
        let m1 = ChainModel { episodes: m.episodes.insert(ep, new_episode(ev, ep, event_seq)), ..m };
        lemma_sound_workflow_active(m1, "submit"@, "DONE"@, ev);
        let m2a = workflow_active(m1, "submit"@, "DONE"@, ev);
        lemma_sound_workflow_active(m2a, "dispatch"@, "ACTIVE"@, ev);
        let m2 = workflow_active(m2a, "dispatch"@, "ACTIVE"@, ev);
        lemma_sound_counted(m2, "submit"@, ep);
    } else if t == "EPISODE_SCHEDULING"@ {
        let m1 = episode_touched(m, ep, EpisodeTouch::Scheduled, ev, event_seq, None);
        lemma_sound_workflow_active(m1, "dispatch"@, "ACTIVE"@, ev);
        let m2 = workflow_active(m1, "dispatch"@, "ACTIVE"@, ev);
        lemma_sound_counted(m2, "dispatch"@, ep);
    } else if t == "EPISODE_DISPATCHED"@ || t == "ATTEMPT_STARTED"@ {
        let m1 = episode_touched(m, ep, EpisodeTouch::Dispatched, ev, event_seq, None);
        let m2 = match ev.worker_id {
            Some(w) => with_worker_node(worker_took(m1, w@, ep), w@),
            None => m1,
        };
        lemma_sound_workflow_active(m2, "dispatch"@, "DONE"@, ev);
        let m3a = workflow_active(m2, "dispatch"@, "DONE"@, ev);
        lemma_sound_workflow_active(m3a, "execute"@, "ACTIVE"@, ev);
        let m3 = workflow_active(m3a, "execute"@, "ACTIVE"@, ev);
        lemma_sound_counted(m3, "dispatch"@, ep);
        let m4 = counted(m3, "dispatch"@, ep);
        reveal_strlit("dispatch");
        reveal_strlit("execute");
        assert("dispatch"@.len() != "execute"@.len());
        assert(seen_at(m4, "execute"@) == seen_at(m3, "execute"@));
        lemma_sound_counted(m4, "execute"@, ep);
    } else if t == "STEP_STARTED"@ || t == "STEP_COMPLETE"@ {
        let step = match ev.step_index {
            Some(s) => s,
            None => 0,
        };
        let m1 = episode_touched(m, ep, EpisodeTouch::Stepped(step), ev, event_seq, None);
        lemma_sound_workflow_active(m1, "execute"@, "ACTIVE"@, ev);
        lemma_sound_counted(workflow_active(m1, "execute"@, "ACTIVE"@, ev), "execute"@, ep);
    } else if t == "EPISODE_REPORTING"@ {
        let m1 = episode_touched(m, ep, EpisodeTouch::Reporting, ev, event_seq, None);
        lemma_sound_workflow_active(m1, "execute"@, "DONE"@, ev);
        let m2a = workflow_active(m1, "execute"@, "DONE"@, ev);
        lemma_sound_workflow_active(m2a, "report"@, "ACTIVE"@, ev);
        lemma_sound_counted(workflow_active(m2a, "report"@, "ACTIVE"@, ev), "report"@, ep);
    } else if t == "EPISODE_COMPLETED"@ || t == "EPISODE_FAILED"@ || t == "EPISODE_CLOSED"@ {
        let failed = finishes_failed(m, ep, ev);
        let st = finish_status(failed);
        let m1 = episode_touched(m, ep, EpisodeTouch::Finished { failed }, ev, event_seq, event_trajectory(ev));
        let m2 = if m1.episodes.contains_key(ep) && m1.episodes[ep].worker_id.len() > 0 {
            worker_released(m1, m1.episodes[ep].worker_id, ep)
        } else {
            m1
        };
        lemma_sound_workflow_active(m2, "execute"@, "DONE"@, ev);
        let a = workflow_active(m2, "execute"@, "DONE"@, ev);
        lemma_sound_workflow_active(a, "report"@, "DONE"@, ev);
        let b = workflow_active(a, "report"@, "DONE"@, ev);
        lemma_sound_workflow_active(b, "done"@, st, ev);
        let m3 = workflow_active(b, "done"@, st, ev);
        lemma_sound_counted(m3, "report"@, ep);
        let m4 = counted(m3, "report"@, ep);
        reveal_strlit("report");
        reveal_strlit("done");
        assert("report"@.len() != "done"@.len());
        assert(seen_at(m4, "done"@) == seen_at(m3, "done"@));
        lemma_sound_counted(m4, "done"@, ep);
    } else if t == "ATTEMPT_CLOSED"@ {
    } else if t == "WORKER_REGISTERED"@ || t == "WORKER_HEARTBEAT"@ {
    } else {
    }
}

/// Law: a new run's counters agree with the (no) episodes counted.
pub proof fn law_new_run_counters_are_sound(run: Seq<char>, now: i64)
    ensures
        counters_sound(empty_chain(run, now)),
{
}

/// Does every worker list each of its active episodes once?
pub open spec fn rosters_distinct(m: ChainModel) -> bool {
    forall|k: Seq<char>| #[trigger] m.workers.contains_key(k) ==> m.workers[k].active_episodes.no_duplicates()
}

proof fn lemma_without(s: Seq<Seq<char>>, x: Seq<char>)
    ensures
        forall|y: Seq<char>| #[trigger] without(s, x).contains(y) ==> s.contains(y),
        s.no_duplicates() ==> without(s, x).no_duplicates(),
    decreases s.len(),
{
    if s.len() > 0 {
        let d = s.drop_last();
        lemma_without(d, x);
        let r = without(d, x);
        assert forall|y: Seq<char>| #[trigger] without(s, x).contains(y) implies s.contains(y) by {
            if r.contains(y) {
                let i = choose|i: int| 0 <= i < d.len() && d[i] == y;
                assert(s[i] == y);
            } else {
                assert(s[s.len() - 1] == y);
            }
        }
        if s.no_duplicates() {
            assert(d.no_duplicates()) by {
                assert forall|i: int, j: int| 0 <= i < d.len() && 0 <= j < d.len() && i != j implies d[i] != d[j] by {
                    assert(s[i] == d[i] && s[j] == d[j]);
                }
            }
            if s.last() != x {
                assert(!r.contains(s.last())) by {
                    if r.contains(s.last()) {
                        let i = choose|i: int| 0 <= i < d.len() && d[i] == s.last();
                        assert(s[i] == s[s.len() - 1]);
                    }
                }
                let w = r.push(s.last());
                assert forall|i: int, j: int| 0 <= i < w.len() && 0 <= j < w.len() && i != j implies w[i] != w[j] by {
                    if i == w.len() - 1 {
                        assert(r[j] == w[j]);
                    } else if j == w.len() - 1 {
                        assert(r[i] == w[i]);
                    } else {
                        assert(r[i] == w[i] && r[j] == w[j]);
                    }
                }
            }
        }
    }
}

/// Law: merging an event never lists an episode twice among a worker's
/// active episodes.
pub proof fn law_rosters_list_episodes_once(m: ChainModel, ev: ObservabilityEvent, event_seq: u64)
    requires
        rosters_distinct(m),
    ensures
        rosters_distinct(projected(m, ev, event_seq)),
{
    let t = ev.event_type@;
    let ep = episode_key(ev);
    if t == "EPISODE_DISPATCHED"@ || t == "ATTEMPT_STARTED"@ {
        let m1 = episode_touched(m, ep, EpisodeTouch::Dispatched, ev, event_seq, None);
        match ev.worker_id {
            Some(w) => {
                let b = worker_or_fresh(m1, w@, "ACTIVE"@);
                let l = b.active_episodes;
                if !l.contains(ep) {
                    let l2 = l.push(ep);
                    assert forall|i: int, j: int| 0 <= i < l2.len() && 0 <= j < l2.len() && i != j implies l2[i] != l2[j] by {
                        if i == l2.len() - 1 {
                            assert(l[j] == l2[j]);
                        } else if j == l2.len() - 1 {
                            assert(l[i] == l2[i]);
                        } else {
                            assert(l[i] == l2[i] && l[j] == l2[j]);
                        }
                    }
                }
            },
            None => {},
        }
    } else if t == "EPISODE_COMPLETED"@ || t == "EPISODE_FAILED"@ || t == "EPISODE_CLOSED"@ {
        let failed = finishes_failed(m, ep, ev);
        let m1 = episode_touched(m, ep, EpisodeTouch::Finished { failed }, ev, event_seq, event_trajectory(ev));
        if m1.episodes.contains_key(ep) && m1.episodes[ep].worker_id.len() > 0 {
            let w = m1.episodes[ep].worker_id;
            if m1.workers.contains_key(w) {
                lemma_without(m1.workers[w].active_episodes, ep);
            }
        }
    }
}

/// Does every node of the tree have its own id?
pub open spec fn node_ids_unique(t: Seq<TreeNodeModel>) -> bool {
    forall|i: int, j: int| 0 <= i < t.len() && 0 <= j < t.len() && i != j ==> #[trigger] t[i].node_id != #[trigger] t[j].node_id
}

/// A tree whose nodes keep their ids and order.
pub open spec fn same_ids(a: Seq<TreeNodeModel>, b: Seq<TreeNodeModel>) -> bool {
    a.len() == b.len() && forall|i: int| 0 <= i < a.len() ==> #[trigger] a[i].node_id == b[i].node_id
}

proof fn lemma_same_ids_unique(a: Seq<TreeNodeModel>, b: Seq<TreeNodeModel>)
    requires
        same_ids(a, b),
        node_ids_unique(a),
    ensures
        node_ids_unique(b),
{
    assert forall|i: int, j: int| 0 <= i < b.len() && 0 <= j < b.len() && i != j implies #[trigger] b[i].node_id
        != #[trigger] b[j].node_id by {
        assert(a[i].node_id == b[i].node_id && a[j].node_id == b[j].node_id);
    }
}

proof fn lemma_push_unique(t: Seq<TreeNodeModel>, n: TreeNodeModel)
    requires
        node_ids_unique(t),
        !has_node(t, n.node_id),
    ensures
        node_ids_unique(t.push(n)),
{
    let u = t.push(n);
    assert forall|i: int, j: int| 0 <= i < u.len() && 0 <= j < u.len() && i != j implies #[trigger] u[i].node_id
        != #[trigger] u[j].node_id by {
        if i == t.len() {
            assert(u[j] == t[j]);
        } else if j == t.len() {
            assert(u[i] == t[i]);
        } else {
            assert(u[i] == t[i] && u[j] == t[j]);
        }
    }
}

proof fn lemma_upsert_worker_unique(t: Seq<TreeNodeModel>, run: Seq<char>, w: Seq<char>, status: Seq<char>)
    requires
        node_ids_unique(t),
    ensures
        node_ids_unique(tree_upsert_worker(t, run, w, status)),
{
    let id = worker_node_id(w);
    if has_node(t, id) {
        lemma_same_ids_unique(t, tree_with_status(t, id, status));
    } else {
        let n = TreeNodeModel {
            node_id: id,
            parent_id: run_node_id(run),
            kind: "worker"@,
            ref_id: w,
            status,
            children_count: 0,
            meta: MetaModel::Empty,
        };
        lemma_push_unique(t, n);
        lemma_same_ids_unique(t.push(n), with_children_counted(t.push(n), run_node_id(run)));
    }
}

proof fn lemma_upsert_episode_unique(t: Seq<TreeNodeModel>, run: Seq<char>, ep: Seq<char>, ev: ObservabilityEvent, status: Seq<char>)
    requires
        node_ids_unique(t),
    ensures
        node_ids_unique(tree_upsert_episode(t, run, ep, ev, status)),
{
    match ev.worker_id {
        Some(w) => if w@.len() > 0 {
            lemma_upsert_worker_unique(t, run, w@, "ACTIVE"@);
        },
        None => {},
    }
    let t1 = tree_with_event_worker(t, run, ev);
    let parent = episode_parent(ev, run);
    let id = episode_node_id(ep);
    if has_node(t1, id) {
        let r = t1.map_values(|n: TreeNodeModel| if n.node_id == id { episode_node_refreshed(n, status, parent, ev) } else { n });
        lemma_same_ids_unique(t1, r);
    } else {
        let n = TreeNodeModel {
            node_id: id,
            parent_id: parent,
            kind: "episode"@,
            ref_id: ep,
            status,
            children_count: 0,
            meta: MetaModel::EpisodeCreated(ev.attempt_id, ev.correlation_id@),
        };
        lemma_push_unique(t1, n);
        lemma_same_ids_unique(t1.push(n), with_children_counted(t1.push(n), parent));
    }
}

proof fn lemma_upsert_step_unique(t: Seq<TreeNodeModel>, run: Seq<char>, ep: Seq<char>, step: i32, ev: ObservabilityEvent)
    requires
        node_ids_unique(t),
    ensures
        node_ids_unique(tree_upsert_step(t, run, ep, step, ev)),
{
    lemma_upsert_episode_unique(t, run, ep, ev, "ACTIVE"@);
    let t1 = tree_upsert_episode(t, run, ep, ev, "ACTIVE"@);
    let id = step_node_id(ep, step);
    if has_node(t1, id) {
        lemma_same_ids_unique(t1, tree_with_status(t1, id, step_status(ev)));
    } else {
        let n = TreeNodeModel {
            node_id: id,
            parent_id: episode_node_id(ep),
            kind: "step"@,
            ref_id: signed_decimal(step),
            status: step_status(ev),
            children_count: 0,
            meta: MetaModel::Step(step),
        };
        lemma_push_unique(t1, n);
        lemma_same_ids_unique(t1.push(n), with_children_counted(t1.push(n), episode_node_id(ep)));
    }
}

/// Law: merging an event keeps every tree node's id its own: a worker,
/// episode or step already in the tree is updated in place, never added
/// again.
pub proof fn law_tree_node_ids_stay_unique(m: ChainModel, ev: ObservabilityEvent, event_seq: u64)
    requires
        node_ids_unique(m.tree),
    ensures
        node_ids_unique(projected(m, ev, event_seq).tree),
{
    let t = ev.event_type@;
    let run = m.training_run_id;
    let ep = episode_key(ev);
    if t == "RUN_STARTED"@ {
        lemma_same_ids_unique(m.tree, tree_with_status(m.tree, run_node_id(run), "ACTIVE"@));
    } else if t == "RUN_STOPPED"@ {
        lemma_same_ids_unique(m.tree, tree_with_status(m.tree, run_node_id(run), "ACTIVE"@));
    } else if t == "RUN_CLOSED"@ {
        lemma_same_ids_unique(m.tree, tree_with_status(m.tree, run_node_id(run), "CLOSED"@));
    } else if t == "EPISODE_SUBMITTED"@ {
        lemma_upsert_episode_unique(m.tree, run, ep, ev, "ACTIVE"@);
    } else if t == "EPISODE_SCHEDULING"@ {
        lemma_upsert_episode_unique(m.tree, run, ep, ev, "ACTIVE"@);
    } else if t == "EPISODE_DISPATCHED"@ || t == "ATTEMPT_STARTED"@ {
        match ev.worker_id {
            Some(w) => {
                lemma_upsert_worker_unique(m.tree, run, w@, "ACTIVE"@);
                lemma_upsert_episode_unique(tree_upsert_worker(m.tree, run, w@, "ACTIVE"@), run, ep, ev, "ACTIVE"@);
            },
            None => {
                lemma_upsert_episode_unique(m.tree, run, ep, ev, "ACTIVE"@);
            },
        }
    } else if t == "STEP_STARTED"@ || t == "STEP_COMPLETE"@ {
        let step = match ev.step_index {
            Some(s) => s,
            None => 0,
        };
        lemma_upsert_step_unique(m.tree, run, ep, step, ev);
    } else if t == "EPISODE_REPORTING"@ {
        lemma_upsert_episode_unique(m.tree, run, ep, ev, "ACTIVE"@);
    } else if t == "EPISODE_COMPLETED"@ || t == "EPISODE_FAILED"@ || t == "EPISODE_CLOSED"@ {
        let st = finish_status(finishes_failed(m, ep, ev));
        lemma_upsert_episode_unique(m.tree, run, ep, ev, st);
        let t2 = tree_upsert_episode(m.tree, run, ep, ev, st);
        lemma_same_ids_unique(t2, tree_close_steps(t2, ep, st));
    } else if t == "ATTEMPT_CLOSED"@ {
    } else if t == "WORKER_REGISTERED"@ || t == "WORKER_HEARTBEAT"@ {
        let w = match ev.worker_id {
            Some(w) => w@,
            None => ev.entity_id@,
        };
        lemma_upsert_worker_unique(m.tree, run, w, "ACTIVE"@);
    }
}

/// Law: the close of an episode that had failed leaves it failed (in status
/// and stage); only a completion or a close of a live episode makes it done.
pub proof fn law_close_keeps_failure(m: ChainModel, ev: ObservabilityEvent, event_seq: u64)
    requires
        ev.event_type@ == "EPISODE_CLOSED"@,
        m.episodes.contains_key(episode_key(ev)),
        m.episodes[episode_key(ev)].status == "FAILED"@,
    ensures
        projected(m, ev, event_seq).episodes[episode_key(ev)].status == "FAILED"@,
        projected(m, ev, event_seq).episodes[episode_key(ev)].stage == "FAILED"@,
{
    reveal_strlit("EPISODE_CLOSED");
    reveal_strlit("RUN_STARTED");
    reveal_strlit("RUN_STOPPED");
    reveal_strlit("RUN_CLOSED");
    reveal_strlit("EPISODE_SUBMITTED");
    reveal_strlit("EPISODE_SCHEDULING");
    reveal_strlit("EPISODE_DISPATCHED");
    reveal_strlit("ATTEMPT_STARTED");
    reveal_strlit("STEP_STARTED");
    reveal_strlit("STEP_COMPLETE");
    reveal_strlit("EPISODE_REPORTING");
    assert("EPISODE_CLOSED"@.len() != "RUN_STARTED"@.len());
    assert("EPISODE_CLOSED"@.len() != "RUN_STOPPED"@.len());
    assert("EPISODE_CLOSED"@.len() != "RUN_CLOSED"@.len());
    assert("EPISODE_CLOSED"@.len() != "EPISODE_SUBMITTED"@.len());
    assert("EPISODE_CLOSED"@.len() != "EPISODE_SCHEDULING"@.len());
    assert("EPISODE_CLOSED"@.len() != "EPISODE_DISPATCHED"@.len());
    assert("EPISODE_CLOSED"@.len() != "ATTEMPT_STARTED"@.len());
    assert("EPISODE_CLOSED"@.len() != "STEP_STARTED"@.len());
    assert("EPISODE_CLOSED"@.len() != "STEP_COMPLETE"@.len());
    assert("EPISODE_CLOSED"@.len() != "EPISODE_REPORTING"@.len());
    let ep = episode_key(ev);
    let m1 = episode_touched(m, ep, EpisodeTouch::Finished { failed: true }, ev, event_seq, event_trajectory(ev));
    assert(m1.episodes[ep].status == "FAILED"@);
}

/// The state a seeded run is given: a pending one starts running, stamped
/// `now`; any other is kept.
pub open spec fn seeded(m: ChainModel, now: i64) -> ChainModel {
    if m.run_state == "PENDING"@ {
        ChainModel { run_state: "RUNNING"@, updated_at: now, ..m }
    } else {
        m
    }
}

/// A run's state, or the state of a new run stamped `now`.
pub open spec fn run_or_empty(runs: Map<Seq<char>, ChainModel>, run: Seq<char>, now: i64) -> ChainModel {
    if runs.contains_key(run) { runs[run] } else { empty_chain(run, now) }
}

/// Makes sure a run exists and is running: the run is created if new (see
/// `MergeEngine::get_or_create`); a pending lifecycle becomes running, and a
/// pending state starts running, stamped with the current time.
pub fn ensure_seed_run(engine: &mut MergeEngine, run_id: &str)
    ensures
        exists|t1: i64, t2: i64|
            final(engine).runs_spec() == old(engine).runs_spec().insert(
                run_id@,
                #[trigger] seeded(run_or_empty(old(engine).runs_spec(), run_id@, t1), t2),
            ),
        final(engine).source_seqs() == old(engine).source_seqs(),
        final(engine).lifecycles() == (if old(engine).lifecycles().contains_key(run_id@) && old(engine).lifecycles()[run_id@].0
            == RunPhase::Pending {
            old(engine).lifecycles().insert(run_id@, (RunPhase::Running, old(engine).lifecycles()[run_id@].1))
        } else {
            old(engine).lifecycles()
        }),
{
    engine.seed_run(run_id)
}

impl MergeEngine {
    fn seed_run(&mut self, run_id: &str)
        ensures
            exists|t1: i64, t2: i64|
                final(self).runs_spec() == old(self).runs_spec().insert(
                    run_id@,
                    #[trigger] seeded(run_or_empty(old(self).runs_spec(), run_id@, t1), t2),
                ),
            final(self).source_seqs() == old(self).source_seqs(),
            final(self).lifecycles() == (if old(self).lifecycles().contains_key(run_id@) && old(self).lifecycles()[run_id@].0
                == RunPhase::Pending {
                old(self).lifecycles().insert(run_id@, (RunPhase::Running, old(self).lifecycles()[run_id@].1))
            } else {
                old(self).lifecycles()
            }),
    {
        let ghost before = self.runs_spec();
        let now = crate::clock::now_ms();
        let mut state = match self.runs.remove(run_id) {
            Some(s) => s,
            None => ChainState::empty(run_id),
        };
        let ghost base = state@;
        let ghost t1 = if before.contains_key(run_id@) { 0i64 } else { base.updated_at };
        proof {
            if !before.contains_key(run_id@) {
                let w = choose|now: i64| base == empty_chain(run_id@, now);
                assert(base.updated_at == w);
                assert(base == empty_chain(run_id@, t1));
            }
        }
        if str_eq(state.run_state.as_str(), "PENDING") {
            state.run_state = "RUNNING".to_string();
            state.updated_at = now;
        }
        proof {
            assert(state@ =~= seeded(base, now));
        }
        let ghost after = state@;
        self.runs.insert(run_id.to_string(), state);
        self.gate.start_if_pending(run_id);
        proof {
            assert(self.runs_spec() =~= before.insert(run_id@, after));
            assert(base == run_or_empty(before, run_id@, t1));
            assert(self.runs_spec() == before.insert(run_id@, seeded(run_or_empty(before, run_id@, t1), now)));
        }
    }
}

/// Does an event of type `t` count its episode at `stage`? Run events
/// count nothing; a submission counts at submit, scheduling at dispatch, a
/// dispatch (or attempt start) at dispatch and execute, a step at execute,
/// reporting at report, and a finish at report and done.
pub open spec fn counts_at(t: Seq<char>, stage: Seq<char>) -> bool {
    if t == "RUN_STARTED"@ || t == "RUN_STOPPED"@ || t == "RUN_CLOSED"@ {
        false
    } else if t == "EPISODE_SUBMITTED"@ {
        stage == "submit"@
    } else if t == "EPISODE_SCHEDULING"@ {
        stage == "dispatch"@
    } else if t == "EPISODE_DISPATCHED"@ || t == "ATTEMPT_STARTED"@ {
        stage == "dispatch"@ || stage == "execute"@
    } else if t == "STEP_STARTED"@ || t == "STEP_COMPLETE"@ {
        stage == "execute"@
    } else if t == "EPISODE_REPORTING"@ {
        stage == "report"@
    } else if t == "EPISODE_COMPLETED"@ || t == "EPISODE_FAILED"@ || t == "EPISODE_CLOSED"@ {
        stage == "report"@ || stage == "done"@
    } else {
        false
    }
}

/// A run after merging the events one after another, the event at
/// position `i` numbered `seqs[i]`.
pub open spec fn projected_all(m: ChainModel, evs: Seq<ObservabilityEvent>, seqs: Seq<u64>) -> ChainModel
    decreases evs.len(),
{
    if evs.len() == 0 {
        m
    } else {
        projected(projected_all(m, evs.drop_last(), seqs), evs.last(), seqs[evs.len() - 1])
    }
}

/// The distinct episodes, named by the events, that `stage` counts.
pub open spec fn episodes_counted(evs: Seq<ObservabilityEvent>, stage: Seq<char>) -> Set<Seq<char>> {
    Set::new(|ep: Seq<char>| ep.len() > 0 && exists|i: int| 0 <= i < evs.len() && counts_at(evs[i].event_type@, stage) && #[trigger] episode_key(evs[i]) == ep)
}

/// `s` with `ep` added at the end unless empty or already there.
pub open spec fn with_new(s: Seq<Seq<char>>, ep: Seq<char>) -> Seq<Seq<char>> {
    if ep.len() == 0 || s.contains(ep) { s } else { s.push(ep) }
}

proof fn lemma_counted_seen(m: ChainModel, stage: Seq<char>, ep: Seq<char>, k: Seq<char>)
    ensures
        seen_at(counted(m, stage, ep), k) == (if k == stage { with_new(seen_at(m, k), ep) } else { seen_at(m, k) }),
{
}

/// What one merged event does to the episodes counted at a stage.
proof fn lemma_seen_step(m: ChainModel, ev: ObservabilityEvent, event_seq: u64, k: Seq<char>)
    ensures
        seen_at(projected(m, ev, event_seq), k) == (if counts_at(ev.event_type@, k) {
            with_new(seen_at(m, k), episode_key(ev))
        } else {
            seen_at(m, k)
        }),
{
    let t = ev.event_type@;
    let ep = episode_key(ev);
    reveal_strlit("dispatch");
    reveal_strlit("execute");
    reveal_strlit("report");
    reveal_strlit("done");
    if t == "RUN_STARTED"@ || t == "RUN_STOPPED"@ || t == "RUN_CLOSED"@ {
        assert(projected(m, ev, event_seq).seen == m.seen);
    } else if t == "EPISODE_SUBMITTED"@ {
        let m1 = ChainModel { episodes: m.episodes.insert(ep, new_episode(ev, ep, event_seq)), ..m };
        let m2 = workflow_active(workflow_active(m1, "submit"@, "DONE"@, ev), "dispatch"@, "ACTIVE"@, ev);
        lemma_counted_seen(m2, "submit"@, ep, k);
    } else if t == "EPISODE_SCHEDULING"@ {
        let m1 = episode_touched(m, ep, EpisodeTouch::Scheduled, ev, event_seq, None);
        let m2 = workflow_active(m1, "dispatch"@, "ACTIVE"@, ev);
        lemma_counted_seen(m2, "dispatch"@, ep, k);
    } else if t == "EPISODE_DISPATCHED"@ || t == "ATTEMPT_STARTED"@ {
        let m1 = episode_touched(m, ep, EpisodeTouch::Dispatched, ev, event_seq, None);
        let m2 = match ev.worker_id {
            Some(w) => with_worker_node(worker_took(m1, w@, ep), w@),
            None => m1,
        };
        let m3 = workflow_active(workflow_active(m2, "dispatch"@, "DONE"@, ev), "execute"@, "ACTIVE"@, ev);
        assert(m3.seen == m.seen);
        lemma_counted_seen(m3, "dispatch"@, ep, k);
        lemma_counted_seen(counted(m3, "dispatch"@, ep), "execute"@, ep, k);
        assert("dispatch"@.len() != "execute"@.len());
    } else if t == "STEP_STARTED"@ || t == "STEP_COMPLETE"@ {
        let step = match ev.step_index {
            Some(s) => s,
            None => 0,
        };
        let m1 = episode_touched(m, ep, EpisodeTouch::Stepped(step), ev, event_seq, None);
        let m2 = workflow_active(m1, "execute"@, "ACTIVE"@, ev);
        lemma_counted_seen(m2, "execute"@, ep, k);
    } else if t == "EPISODE_REPORTING"@ {
        let m1 = episode_touched(m, ep, EpisodeTouch::Reporting, ev, event_seq, None);
        let m2 = workflow_active(workflow_active(m1, "execute"@, "DONE"@, ev), "report"@, "ACTIVE"@, ev);
        lemma_counted_seen(m2, "report"@, ep, k);
    } else if t == "EPISODE_COMPLETED"@ || t == "EPISODE_FAILED"@ || t == "EPISODE_CLOSED"@ {
        let failed = finishes_failed(m, ep, ev);
        let st = finish_status(failed);
        let m1 = episode_touched(m, ep, EpisodeTouch::Finished { failed }, ev, event_seq, event_trajectory(ev));
        let m2 = if m1.episodes.contains_key(ep) && m1.episodes[ep].worker_id.len() > 0 {
            worker_released(m1, m1.episodes[ep].worker_id, ep)
        } else {
            m1
        };
        let m3 = workflow_active(
            workflow_active(workflow_active(m2, "execute"@, "DONE"@, ev), "report"@, "DONE"@, ev),
            "done"@,
            st,
            ev,
        );
        assert(m3.seen == m.seen);
        lemma_counted_seen(m3, "report"@, ep, k);
        lemma_counted_seen(counted(m3, "report"@, ep), "done"@, ep, k);
        assert("report"@.len() != "done"@.len());
    } else {
        assert(projected(m, ev, event_seq).seen == m.seen);
    }
}

proof fn lemma_with_new(s: Seq<Seq<char>>, ep: Seq<char>)
    requires
        s.no_duplicates(),
    ensures
        with_new(s, ep).no_duplicates(),
        with_new(s, ep).len() <= s.len() + 1,
        with_new(s, ep).to_set() == (if ep.len() > 0 { s.to_set().insert(ep) } else { s.to_set() }),
{
    if !(ep.len() == 0 || s.contains(ep)) {
        let w = s.push(ep);
        assert forall|i: int, j: int| 0 <= i < w.len() && 0 <= j < w.len() && i != j implies w[i] != w[j] by {
            if i == w.len() - 1 {
                assert(s[j] == w[j]);
            } else if j == w.len() - 1 {
                assert(s[i] == w[i]);
            } else {
                assert(s[i] == w[i] && s[j] == w[j]);
            }
        }
        s.lemma_push_to_set_commute(ep);
    } else if ep.len() > 0 {
        assert(s.to_set().insert(ep) =~= s.to_set());
    }
}

/// The counting at each stage over a history, with the bound that keeps
/// the counters within `usize`.
proof fn lemma_history_counts(run: Seq<char>, now: i64, evs: Seq<ObservabilityEvent>, seqs: Seq<u64>)
    requires
        evs.len() < usize::MAX,
    ensures
        counters_sound(projected_all(empty_chain(run, now), evs, seqs)),
        forall|k: Seq<char>|
            #![trigger seen_at(projected_all(empty_chain(run, now), evs, seqs), k)]
            seen_at(projected_all(empty_chain(run, now), evs, seqs), k).to_set() == episodes_counted(evs, k)
                && seen_at(projected_all(empty_chain(run, now), evs, seqs), k).no_duplicates()
                && seen_at(projected_all(empty_chain(run, now), evs, seqs), k).len() <= evs.len(),
    decreases evs.len(),
{
    let p = projected_all(empty_chain(run, now), evs, seqs);
    if evs.len() == 0 {
        law_new_run_counters_are_sound(run, now);
        assert forall|k: Seq<char>| #![trigger seen_at(p, k)]
            seen_at(p, k).to_set() == episodes_counted(evs, k) && seen_at(p, k).no_duplicates()
                && seen_at(p, k).len() <= evs.len() by {
            assert(seen_at(p, k) =~= Seq::<Seq<char>>::empty());
            assert(seen_at(p, k).to_set() =~= episodes_counted(evs, k));
        }
    } else {
        let d = evs.drop_last();
        let q = projected_all(empty_chain(run, now), d, seqs);
        let ev = evs.last();
        let n = evs.len() - 1;
        lemma_history_counts(run, now, d, seqs);
        assert(counters_have_room(q)) by {
            assert forall|k: Seq<char>| #[trigger] q.seen.contains_key(k) implies q.seen[k].len() < usize::MAX by {
                assert(seen_at(q, k) == q.seen[k]);
            }
        }
        law_stage_counters_count_distinct_episodes(q, ev, seqs[n]);
        assert forall|k: Seq<char>| #![trigger seen_at(p, k)]
            seen_at(p, k).to_set() == episodes_counted(evs, k) && seen_at(p, k).no_duplicates()
                && seen_at(p, k).len() <= evs.len() by {
            lemma_seen_step(q, ev, seqs[n], k);
            lemma_with_new(seen_at(q, k), episode_key(ev));
            let c = counts_at(ev.event_type@, k);
            let ep = episode_key(ev);
            assert forall|x: Seq<char>| #[trigger] episodes_counted(evs, k).contains(x) == (episodes_counted(d, k).contains(x)
                || (c && ep.len() > 0 && x == ep)) by {
                if episodes_counted(evs, k).contains(x) {
                    let i = choose|i: int| 0 <= i < evs.len() && counts_at(evs[i].event_type@, k) && #[trigger] episode_key(evs[i]) == x;
                    if i < n {
                        assert(d[i] == evs[i]);
                    }
                }
                if episodes_counted(d, k).contains(x) {
                    let i = choose|i: int| 0 <= i < d.len() && counts_at(d[i].event_type@, k) && #[trigger] episode_key(d[i]) == x;
                    assert(d[i] == evs[i]);
                }
                if c && ep.len() > 0 && x == ep {
                    assert(episode_key(evs[n]) == x);
                }
            }
            if c {
                assert(seen_at(p, k).to_set() =~= episodes_counted(evs, k));
            } else {
                assert(seen_at(p, k).to_set() =~= episodes_counted(evs, k));
            }
        }
    }
}

/// Law: over any history of merged events (fewer than `usize::MAX`), each
/// stage's counter is the number of distinct episodes named by the events
/// that count at that stage, and is unset while there are none: repeated
/// events about one episode never raise it, and events without an episode
/// never change it.
pub proof fn law_stage_counters_follow_the_history(run: Seq<char>, now: i64, evs: Seq<ObservabilityEvent>, seqs: Seq<u64>)
    requires
        evs.len() < usize::MAX,
    ensures
        forall|i: int|
            0 <= i < projected_all(empty_chain(run, now), evs, seqs).stages.len() ==> (#[trigger] projected_all(
                empty_chain(run, now),
                evs,
                seqs,
            ).stages[i]).count == (if episodes_counted(evs, projected_all(empty_chain(run, now), evs, seqs).stages[i].node_id).len() > 0 {
                Some(episodes_counted(evs, projected_all(empty_chain(run, now), evs, seqs).stages[i].node_id).len() as usize)
            } else {
                None
            }),
{
    let p = projected_all(empty_chain(run, now), evs, seqs);
    lemma_history_counts(run, now, evs, seqs);
    assert forall|i: int| 0 <= i < p.stages.len() implies (#[trigger] p.stages[i]).count == (if episodes_counted(
        evs,
        p.stages[i].node_id,
    ).len() > 0 {
        Some(episodes_counted(evs, p.stages[i].node_id).len() as usize)
    } else {
        None
    }) by {
        let k = p.stages[i].node_id;
        let sk = seen_at(p, k);
        sk.unique_seq_to_set();
        if p.seen.contains_key(k) {
            assert(sk == p.seen[k]);
        } else {
            assert(sk.len() == 0);
        }
    }
}

} // verus!
