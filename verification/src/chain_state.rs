//! The merged state of one training run as observers see it: the workflow
//! graph with its stage counters, the tree of run, workers, episodes and
//! steps, the episode and worker views, and the cursor of the last merged
//! event. Each type has a mathematical model, its view, that the merge
//! contracts are written over.
use crate::execution_backend::opt_view;
use crate::keyed_table::{holds_key, keys_distinct, KeyedTable};
use crate::messages::copy_strings;
use crate::obs::EventCursor;
use crate::obs_views::{default_workflow_edges, EpisodeView, WorkerView, WorkflowEdge};
use vstd::prelude::*;

verus! {

broadcast use vstd::string::group_string_axioms;

/// A stage of the workflow graph. `count` is the number of distinct
/// episodes that entered the stage, once one has (`{"count": n}` on the
/// wire, `null` before).
#[derive(Debug)]
pub struct WorkflowNode {
    pub node_id: String,
    pub stage: String,
    pub status: String,
    pub correlation_id: String,
    pub episode_id: String,
    pub label: String,
    pub source_ts: i64,
    pub count: Option<usize>,
}

/// The workflow graph of a run.
#[derive(Debug)]
pub struct WorkflowGraph {
    pub nodes: Vec<WorkflowNode>,
    pub edges: Vec<WorkflowEdge>,
    pub active_node_id: String,
}

/// The small JSON object a tree node carries.
#[derive(Debug)]
pub enum TreeMeta {
    /// `null` (the run's node).
    Null,
    /// `{}` (a worker's node).
    Empty,
    /// An episode node as first created: attempt and correlation.
    EpisodeCreated { attempt_id: Option<u32>, correlation_id: String },
    /// An episode node as later refreshed: attempt, correlation and step.
    EpisodeUpdated { attempt_id: Option<u32>, correlation_id: String, step_index: Option<i32> },
    /// A step node: its step index.
    Step { step_index: i32 },
}

/// A node of the run tree.
#[derive(Debug)]
pub struct TreeNode {
    pub node_id: String,
    pub parent_id: String,
    pub kind: String,
    pub ref_id: String,
    pub status: String,
    pub children_count: usize,
    pub meta: TreeMeta,
}

/// The run tree: the run, its workers, their episodes and the episodes' steps.
#[derive(Debug)]
pub struct TreeGraph {
    pub root_id: String,
    pub nodes: Vec<TreeNode>,
}

/// Everything merged so far about one training run.
#[derive(Debug)]
pub struct ChainState {
    pub training_run_id: String,
    pub run_state: String,
    pub run_status: String,
    pub terminal_reason: String,
    pub last_heartbeat_ts: i64,
    pub heartbeat_state: String,
    pub updated_at: i64,
    pub global_event_seq: u64,
    pub planned_episode_total: u64,
    pub planned_step_total: u64,
    pub workflow: WorkflowGraph,
    pub tree: TreeGraph,
    pub episodes: KeyedTable<EpisodeView>,
    pub workers: KeyedTable<WorkerView>,
    pub cursor: EventCursor,
    /// For each workflow stage, the distinct episodes counted there, in the
    /// order they were first counted.
    pub stage_seen_episodes: KeyedTable<Vec<String>>,
}

/// Model of a workflow stage.
pub struct StageModel {
    pub node_id: Seq<char>,
    pub stage: Seq<char>,
    pub status: Seq<char>,
    pub correlation_id: Seq<char>,
    pub episode_id: Seq<char>,
    pub label: Seq<char>,
    pub source_ts: i64,
    pub count: Option<usize>,
}

/// Model of a tree node's meta object.
pub enum MetaModel {
    Null,
    Empty,
    EpisodeCreated(Option<u32>, Seq<char>),
    EpisodeUpdated(Option<u32>, Seq<char>, Option<i32>),
    Step(i32),
}

/// Model of a tree node.
pub struct TreeNodeModel {
    pub node_id: Seq<char>,
    pub parent_id: Seq<char>,
    pub kind: Seq<char>,
    pub ref_id: Seq<char>,
    pub status: Seq<char>,
    pub children_count: nat,
    pub meta: MetaModel,
}

/// Model of an episode view.
pub struct EpisodeModel {
    pub episode_id: Seq<char>,
    pub correlation_id: Seq<char>,
    pub attempt_id: u32,
    pub worker_id: Seq<char>,
    pub env_type: Seq<char>,
    pub step_index: i32,
    pub status: Seq<char>,
    pub stage: Seq<char>,
    pub event_seq: u64,
    pub last_source_ts: i64,
    pub trajectory_id: Option<Seq<char>>,
}

/// Model of a worker view.
pub struct WorkerModel {
    pub worker_id: Seq<char>,
    pub active_episodes: Seq<Seq<char>>,
    pub env_instances: Seq<Seq<char>>,
    pub last_heartbeat_ts: i64,
    pub status: Seq<char>,
    pub status_reason: Seq<char>,
    pub status_changed_ts: i64,
    pub current_load: u32,
    pub capacity: u32,
    pub endpoint: Seq<char>,
    pub supported_env_types: Seq<Seq<char>>,
}

/// Model of an event cursor.
pub struct CursorModel {
    pub last_event_id: Seq<char>,
    pub last_source_id: Seq<char>,
    pub last_seq: u64,
    pub last_ingest_ts: i64,
}

/// Model of a run's merged state.
#[verifier::ext_equal]
pub struct ChainModel {
    pub training_run_id: Seq<char>,
    pub run_state: Seq<char>,
    pub run_status: Seq<char>,
    pub terminal_reason: Seq<char>,
    pub last_heartbeat_ts: i64,
    pub heartbeat_state: Seq<char>,
    pub updated_at: i64,
    pub global_event_seq: u64,
    pub planned_episode_total: u64,
    pub planned_step_total: u64,
    pub stages: Seq<StageModel>,
    pub edges: Seq<(Seq<char>, Seq<char>)>,
    pub active_node_id: Seq<char>,
    pub root_id: Seq<char>,
    pub tree: Seq<TreeNodeModel>,
    pub episodes: Map<Seq<char>, EpisodeModel>,
    pub workers: Map<Seq<char>, WorkerModel>,
    pub cursor: CursorModel,
    pub seen: Map<Seq<char>, Seq<Seq<char>>>,
}

/// The characters of each string.
pub open spec fn strs(s: Seq<String>) -> Seq<Seq<char>> {
    s.map_values(|x: String| x@)
}

impl View for WorkflowNode {
    type V = StageModel;

    open spec fn view(&self) -> StageModel {
        StageModel {
            node_id: self.node_id@,
            stage: self.stage@,
            status: self.status@,
            correlation_id: self.correlation_id@,
            episode_id: self.episode_id@,
            label: self.label@,
            source_ts: self.source_ts,
            count: self.count,
        }
    }
}

impl View for TreeMeta {
    type V = MetaModel;

    open spec fn view(&self) -> MetaModel {
        match self {
            TreeMeta::Null => MetaModel::Null,
            TreeMeta::Empty => MetaModel::Empty,
            TreeMeta::EpisodeCreated { attempt_id, correlation_id } => MetaModel::EpisodeCreated(*attempt_id, correlation_id@),
            TreeMeta::EpisodeUpdated { attempt_id, correlation_id, step_index } => MetaModel::EpisodeUpdated(
                *attempt_id,
                correlation_id@,
                *step_index,
            ),
            TreeMeta::Step { step_index } => MetaModel::Step(*step_index),
        }
    }
}

impl View for TreeNode {
    type V = TreeNodeModel;

    open spec fn view(&self) -> TreeNodeModel {
        TreeNodeModel {
            node_id: self.node_id@,
            parent_id: self.parent_id@,
            kind: self.kind@,
            ref_id: self.ref_id@,
            status: self.status@,
            children_count: self.children_count as nat,
            meta: self.meta@,
        }
    }
}

impl View for EpisodeView {
    type V = EpisodeModel;

    open spec fn view(&self) -> EpisodeModel {
        EpisodeModel {
            episode_id: self.episode_id@,
            correlation_id: self.correlation_id@,
            attempt_id: self.attempt_id,
            worker_id: self.worker_id@,
            env_type: self.env_type@,
            step_index: self.step_index,
            status: self.status@,
            stage: self.stage@,
            event_seq: self.event_seq,
            last_source_ts: self.last_source_ts,
            trajectory_id: opt_view(self.trajectory_id),
        }
    }
}

impl View for WorkerView {
    type V = WorkerModel;

    open spec fn view(&self) -> WorkerModel {
        WorkerModel {
            worker_id: self.worker_id@,
            active_episodes: strs(self.active_episodes@),
            env_instances: strs(self.env_instances@),
            last_heartbeat_ts: self.last_heartbeat_ts,
            status: self.status@,
            status_reason: self.status_reason@,
            status_changed_ts: self.status_changed_ts,
            current_load: self.current_load,
            capacity: self.capacity,
            endpoint: self.endpoint@,
            supported_env_types: strs(self.supported_env_types@),
        }
    }
}

impl View for EventCursor {
    type V = CursorModel;

    open spec fn view(&self) -> CursorModel {
        CursorModel {
            last_event_id: self.last_event_id@,
            last_source_id: self.last_source_id@,
            last_seq: self.last_seq,
            last_ingest_ts: self.last_ingest_ts,
        }
    }
}

/// The stages of a workflow by their models.
pub open spec fn stage_models(nodes: Seq<WorkflowNode>) -> Seq<StageModel> {
    nodes.map_values(|n: WorkflowNode| n@)
}

/// The nodes of a tree by their models.
pub open spec fn tree_models(nodes: Seq<TreeNode>) -> Seq<TreeNodeModel> {
    nodes.map_values(|n: TreeNode| n@)
}

/// The edges of a workflow by their end points.
pub open spec fn edge_models(edges: Seq<WorkflowEdge>) -> Seq<(Seq<char>, Seq<char>)> {
    edges.map_values(|e: WorkflowEdge| (e.from@, e.to@))
}

impl View for ChainState {
    type V = ChainModel;

    open spec fn view(&self) -> ChainModel {
        ChainModel {
            training_run_id: self.training_run_id@,
            run_state: self.run_state@,
            run_status: self.run_status@,
            terminal_reason: self.terminal_reason@,
            last_heartbeat_ts: self.last_heartbeat_ts,
            heartbeat_state: self.heartbeat_state@,
            updated_at: self.updated_at,
            global_event_seq: self.global_event_seq,
            planned_episode_total: self.planned_episode_total,
            planned_step_total: self.planned_step_total,
            stages: stage_models(self.workflow.nodes@),
            edges: edge_models(self.workflow.edges@),
            active_node_id: self.workflow.active_node_id@,
            root_id: self.tree.root_id@,
            tree: tree_models(self.tree.nodes@),
            episodes: self.episodes@.map_values(|e: EpisodeView| e@),
            workers: self.workers@.map_values(|w: WorkerView| w@),
            cursor: self.cursor@,
            seen: self.stage_seen_episodes@.map_values(|v: Vec<String>| strs(v@)),
        }
    }
}

/// A pending stage as the default workflow holds it.
pub open spec fn pending_stage(id: Seq<char>, stage: Seq<char>, label: Seq<char>) -> StageModel {
    StageModel {
        node_id: id,
        stage,
        status: "PENDING"@,
        correlation_id: Seq::empty(),
        episode_id: Seq::empty(),
        label,
        source_ts: 0,
        count: None,
    }
}

/// The stages of a new run's workflow.
pub open spec fn default_stages() -> Seq<StageModel> {
    seq![
        pending_stage("submit"@, "SUBMIT"@, "接入提交"@),
        pending_stage("dispatch"@, "DISPATCH"@, "调度下发"@),
        pending_stage("execute"@, "EXECUTE"@, "环境执行"@),
        pending_stage("report"@, "REPORT"@, "结果回传"@),
        pending_stage("done"@, "DONE"@, "完成"@),
    ]
}

/// The edges of a new run's workflow.
pub open spec fn default_edges() -> Seq<(Seq<char>, Seq<char>)> {
    seq![
        ("submit"@, "dispatch"@),
        ("dispatch"@, "execute"@),
        ("execute"@, "report"@),
        ("report"@, "done"@),
    ]
}

fn pending_node(id: &str, stage: &str, label: &str) -> (n: WorkflowNode)
    ensures
        n@ == pending_stage(id@, stage@, label@),
{
    WorkflowNode {
        node_id: id.to_string(),
        stage: stage.to_string(),
        status: "PENDING".to_string(),
        correlation_id: String::new(),
        episode_id: String::new(),
        label: label.to_string(),
        source_ts: 0,
        count: None,
    }
}

/// The workflow of a new run: five pending stages from submit to done, the
/// four edges between them, and submit as the active stage.
pub fn default_workflow() -> (g: WorkflowGraph)
    ensures
        stage_models(g.nodes@) == default_stages(),
        edge_models(g.edges@) == default_edges(),
        g.active_node_id@ == "submit"@,
{
    let mut nodes: Vec<WorkflowNode> = Vec::new();
    nodes.push(pending_node("submit", "SUBMIT", "接入提交"));
    nodes.push(pending_node("dispatch", "DISPATCH", "调度下发"));
    nodes.push(pending_node("execute", "EXECUTE", "环境执行"));
    nodes.push(pending_node("report", "REPORT", "结果回传"));
    nodes.push(pending_node("done", "DONE", "完成"));
    let edges = default_workflow_edges();
    proof {
        assert(stage_models(nodes@) =~= default_stages());
        assert(edge_models(edges@) =~= default_edges());
    }
    WorkflowGraph { nodes, edges, active_node_id: "submit".to_string() }
}

/// The tree node id of a run.
pub open spec fn run_node_id(run: Seq<char>) -> Seq<char> {
    "run:"@ + run
}

/// The state of a run nothing has been merged into yet, stamped `now`:
/// pending, the default workflow, a tree of the run's node alone, no
/// episodes, workers or counted episodes, and an empty cursor.
pub open spec fn empty_chain(run: Seq<char>, now: i64) -> ChainModel {
    ChainModel {
        training_run_id: run,
        run_state: "PENDING"@,
        run_status: "pending"@,
        terminal_reason: Seq::empty(),
        last_heartbeat_ts: 0,
        heartbeat_state: "unknown"@,
        updated_at: now,
        global_event_seq: 0,
        planned_episode_total: 0,
        planned_step_total: 0,
        stages: default_stages(),
        edges: default_edges(),
        active_node_id: "submit"@,
        root_id: run_node_id(run),
        tree: seq![TreeNodeModel {
            node_id: run_node_id(run),
            parent_id: Seq::empty(),
            kind: "run"@,
            ref_id: run,
            status: "PENDING"@,
            children_count: 0,
            meta: MetaModel::Null,
        }],
        episodes: Map::empty(),
        workers: Map::empty(),
        cursor: CursorModel { last_event_id: Seq::empty(), last_source_id: Seq::empty(), last_seq: 0, last_ingest_ts: now },
        seen: Map::empty(),
    }
}

fn copy_stage(n: &WorkflowNode) -> (r: WorkflowNode)
    ensures
        r@ == n@,
{
    WorkflowNode {
        node_id: n.node_id.clone(),
        stage: n.stage.clone(),
        status: n.status.clone(),
        correlation_id: n.correlation_id.clone(),
        episode_id: n.episode_id.clone(),
        label: n.label.clone(),
        source_ts: n.source_ts,
        count: n.count,
    }
}

fn copy_meta(m: &TreeMeta) -> (r: TreeMeta)
    ensures
        r@ == m@,
{
    match m {
        TreeMeta::Null => TreeMeta::Null,
        TreeMeta::Empty => TreeMeta::Empty,
        TreeMeta::EpisodeCreated { attempt_id, correlation_id } => TreeMeta::EpisodeCreated {
            attempt_id: *attempt_id,
            correlation_id: correlation_id.clone(),
        },
        TreeMeta::EpisodeUpdated { attempt_id, correlation_id, step_index } => TreeMeta::EpisodeUpdated {
            attempt_id: *attempt_id,
            correlation_id: correlation_id.clone(),
            step_index: *step_index,
        },
        TreeMeta::Step { step_index } => TreeMeta::Step { step_index: *step_index },
    }
}

fn copy_tree_node(n: &TreeNode) -> (r: TreeNode)
    ensures
        r@ == n@,
{
    TreeNode {
        node_id: n.node_id.clone(),
        parent_id: n.parent_id.clone(),
        kind: n.kind.clone(),
        ref_id: n.ref_id.clone(),
        status: n.status.clone(),
        children_count: n.children_count,
        meta: copy_meta(&n.meta),
    }
}

fn copy_stages(v: &Vec<WorkflowNode>) -> (r: Vec<WorkflowNode>)
    ensures
        stage_models(r@) == stage_models(v@),
{
    let mut r: Vec<WorkflowNode> = Vec::new();
    let mut i: usize = 0;
    while i < v.len()
        invariant
            i <= v@.len(),
            stage_models(r@) == stage_models(v@.take(i as int)),
        decreases v@.len() - i,
    {
        r.push(copy_stage(&v[i]));
        proof {
            assert(stage_models(v@.take(i + 1)) =~= stage_models(v@.take(i as int)).push(v@[i as int]@));
            assert(stage_models(r@) =~= stage_models(v@.take(i + 1)));
        }
        i = i + 1;
    }
    proof {
        assert(v@.take(i as int) =~= v@);
    }
    r
}

fn copy_edges(v: &Vec<WorkflowEdge>) -> (r: Vec<WorkflowEdge>)
    ensures
        edge_models(r@) == edge_models(v@),
{
    let mut r: Vec<WorkflowEdge> = Vec::new();
    let mut i: usize = 0;
    while i < v.len()
        invariant
            i <= v@.len(),
            edge_models(r@) == edge_models(v@.take(i as int)),
        decreases v@.len() - i,
    {
        r.push(WorkflowEdge { from: v[i].from.clone(), to: v[i].to.clone() });
        proof {
            assert(edge_models(v@.take(i + 1)) =~= edge_models(v@.take(i as int)).push((v@[i as int].from@, v@[i as int].to@)));
            assert(edge_models(r@) =~= edge_models(v@.take(i + 1)));
        }
        i = i + 1;
    }
    proof {
        assert(v@.take(i as int) =~= v@);
    }
    r
}

fn copy_tree_nodes(v: &Vec<TreeNode>) -> (r: Vec<TreeNode>)
    ensures
        tree_models(r@) == tree_models(v@),
{
    let mut r: Vec<TreeNode> = Vec::new();
    let mut i: usize = 0;
    while i < v.len()
        invariant
            i <= v@.len(),
            tree_models(r@) == tree_models(v@.take(i as int)),
        decreases v@.len() - i,
    {
        r.push(copy_tree_node(&v[i]));
        proof {
            assert(tree_models(v@.take(i + 1)) =~= tree_models(v@.take(i as int)).push(v@[i as int]@));
            assert(tree_models(r@) =~= tree_models(v@.take(i + 1)));
        }
        i = i + 1;
    }
    proof {
        assert(v@.take(i as int) =~= v@);
    }
    r
}

fn copy_episode(e: &EpisodeView) -> (r: EpisodeView)
    ensures
        r@ == e@,
{
    EpisodeView {
        episode_id: e.episode_id.clone(),
        correlation_id: e.correlation_id.clone(),
        attempt_id: e.attempt_id,
        worker_id: e.worker_id.clone(),
        env_type: e.env_type.clone(),
        step_index: e.step_index,
        status: e.status.clone(),
        stage: e.stage.clone(),
        event_seq: e.event_seq,
        last_source_ts: e.last_source_ts,
        trajectory_id: match &e.trajectory_id {
            Some(t) => Some(t.clone()),
            None => None,
        },
    }
}

fn copy_worker(w: &WorkerView) -> (r: WorkerView)
    ensures
        r@ == w@,
{
    WorkerView {
        worker_id: w.worker_id.clone(),
        active_episodes: copy_strings(&w.active_episodes),
        env_instances: copy_strings(&w.env_instances),
        last_heartbeat_ts: w.last_heartbeat_ts,
        status: w.status.clone(),
        status_reason: w.status_reason.clone(),
        status_changed_ts: w.status_changed_ts,
        current_load: w.current_load,
        capacity: w.capacity,
        endpoint: w.endpoint.clone(),
        supported_env_types: copy_strings(&w.supported_env_types),
    }
}

fn copy_episodes(t: &KeyedTable<EpisodeView>) -> (r: KeyedTable<EpisodeView>)
    ensures
        r@.map_values(|e: EpisodeView| e@) == t@.map_values(|e: EpisodeView| e@),
{
    let n = t.len();
    let ghost rows = t.rows();
    proof {
        assert forall|x: int| 0 <= x < rows.len() implies #[trigger] t@.contains_key(rows[x].0) && t@[rows[x].0]
            == rows[x].1 by {
            assert(t@.contains_key(t.rows()[x].0));
        }
    }
    let mut r: KeyedTable<EpisodeView> = KeyedTable::new();
    let mut i: usize = 0;
    while i < n
        invariant
            i <= n,
            n == rows.len(),
            rows == t.rows(),
            keys_distinct(rows),
            forall|x: int| 0 <= x < rows.len() ==> #[trigger] t@.contains_key(rows[x].0) && t@[rows[x].0] == rows[x].1,
            forall|k: Seq<char>| #[trigger] t@.contains_key(k) <==> holds_key(rows, k),
            forall|k: Seq<char>| #[trigger] r@.contains_key(k) <==> exists|x: int| 0 <= x < i && rows[x].0 == k,
            forall|k: Seq<char>| #[trigger] r@.contains_key(k) ==> r@[k]@ == t@[k]@,
        decreases n - i,
    {
        let (k, e) = t.entry_at(i);
        r.insert(k.clone(), copy_episode(e));
        proof {
            assert(t@.contains_key(rows[i as int].0));
            assert forall|kk: Seq<char>| #[trigger] r@.contains_key(kk) implies exists|x: int| 0 <= x < i + 1 && rows[x].0 == kk by {
                if kk == k@ {
                    assert(rows[i as int].0 == kk);
                } else {
                    let x = choose|x: int| 0 <= x < i && rows[x].0 == kk;
                    assert(rows[x].0 == kk);
                }
            }
        }
        i = i + 1;
    }
    proof {
        assert(r@.map_values(|e: EpisodeView| e@) =~= t@.map_values(|e: EpisodeView| e@));
    }
    r
}

fn copy_workers(t: &KeyedTable<WorkerView>) -> (r: KeyedTable<WorkerView>)
    ensures
        r@.map_values(|w: WorkerView| w@) == t@.map_values(|w: WorkerView| w@),
{
    let n = t.len();
    let ghost rows = t.rows();
    proof {
        assert forall|x: int| 0 <= x < rows.len() implies #[trigger] t@.contains_key(rows[x].0) && t@[rows[x].0]
            == rows[x].1 by {
            assert(t@.contains_key(t.rows()[x].0));
        }
    }
    let mut r: KeyedTable<WorkerView> = KeyedTable::new();
    let mut i: usize = 0;
    while i < n
        invariant
            i <= n,
            n == rows.len(),
            rows == t.rows(),
            keys_distinct(rows),
            forall|x: int| 0 <= x < rows.len() ==> #[trigger] t@.contains_key(rows[x].0) && t@[rows[x].0] == rows[x].1,
            forall|k: Seq<char>| #[trigger] t@.contains_key(k) <==> holds_key(rows, k),
            forall|k: Seq<char>| #[trigger] r@.contains_key(k) <==> exists|x: int| 0 <= x < i && rows[x].0 == k,
            forall|k: Seq<char>| #[trigger] r@.contains_key(k) ==> r@[k]@ == t@[k]@,
        decreases n - i,
    {
        let (k, w) = t.entry_at(i);
        r.insert(k.clone(), copy_worker(w));
        proof {
            assert(t@.contains_key(rows[i as int].0));
            assert forall|kk: Seq<char>| #[trigger] r@.contains_key(kk) implies exists|x: int| 0 <= x < i + 1 && rows[x].0 == kk by {
                if kk == k@ {
                    assert(rows[i as int].0 == kk);
                } else {
                    let x = choose|x: int| 0 <= x < i && rows[x].0 == kk;
                    assert(rows[x].0 == kk);
                }
            }
        }
        i = i + 1;
    }
    proof {
        assert(r@.map_values(|w: WorkerView| w@) =~= t@.map_values(|w: WorkerView| w@));
    }
    r
}

fn copy_seen(t: &KeyedTable<Vec<String>>) -> (r: KeyedTable<Vec<String>>)
    ensures
        r@.map_values(|v: Vec<String>| strs(v@)) == t@.map_values(|v: Vec<String>| strs(v@)),
{
    let n = t.len();
    let ghost rows = t.rows();
    proof {
        assert forall|x: int| 0 <= x < rows.len() implies #[trigger] t@.contains_key(rows[x].0) && t@[rows[x].0]
            == rows[x].1 by {
            assert(t@.contains_key(t.rows()[x].0));
        }
    }
    let mut r: KeyedTable<Vec<String>> = KeyedTable::new();
    let mut i: usize = 0;
    while i < n
        invariant
            i <= n,
            n == rows.len(),
            rows == t.rows(),
            keys_distinct(rows),
            forall|x: int| 0 <= x < rows.len() ==> #[trigger] t@.contains_key(rows[x].0) && t@[rows[x].0] == rows[x].1,
            forall|k: Seq<char>| #[trigger] t@.contains_key(k) <==> holds_key(rows, k),
            forall|k: Seq<char>| #[trigger] r@.contains_key(k) <==> exists|x: int| 0 <= x < i && rows[x].0 == k,
            forall|k: Seq<char>| #[trigger] r@.contains_key(k) ==> r@[k]@ == t@[k]@,
        decreases n - i,
    {
        let (k, v) = t.entry_at(i);
        r.insert(k.clone(), copy_strings(v));
        proof {
            assert(t@.contains_key(rows[i as int].0));
            assert forall|kk: Seq<char>| #[trigger] r@.contains_key(kk) implies exists|x: int| 0 <= x < i + 1 && rows[x].0 == kk by {
                if kk == k@ {
                    assert(rows[i as int].0 == kk);
                } else {
                    let x = choose|x: int| 0 <= x < i && rows[x].0 == kk;
                    assert(rows[x].0 == kk);
                }
            }
        }
        i = i + 1;
    }
    proof {
        assert(r@.map_values(|v: Vec<String>| strs(v@)) =~= t@.map_values(|v: Vec<String>| strs(v@)));
    }
    r
}

impl ChainState {
    /// A copy of the state.
    pub fn duplicate(&self) -> (r: Self)
        ensures
            r@ == self@,
    {
        let r = ChainState {
            training_run_id: self.training_run_id.clone(),
            run_state: self.run_state.clone(),
            run_status: self.run_status.clone(),
            terminal_reason: self.terminal_reason.clone(),
            last_heartbeat_ts: self.last_heartbeat_ts,
            heartbeat_state: self.heartbeat_state.clone(),
            updated_at: self.updated_at,
            global_event_seq: self.global_event_seq,
            planned_episode_total: self.planned_episode_total,
            planned_step_total: self.planned_step_total,
            workflow: WorkflowGraph {
                nodes: copy_stages(&self.workflow.nodes),
                edges: copy_edges(&self.workflow.edges),
                active_node_id: self.workflow.active_node_id.clone(),
            },
            tree: TreeGraph { root_id: self.tree.root_id.clone(), nodes: copy_tree_nodes(&self.tree.nodes) },
            episodes: copy_episodes(&self.episodes),
            workers: copy_workers(&self.workers),
            cursor: EventCursor {
                last_event_id: self.cursor.last_event_id.clone(),
                last_source_id: self.cursor.last_source_id.clone(),
                last_seq: self.cursor.last_seq,
                last_ingest_ts: self.cursor.last_ingest_ts,
            },
            stage_seen_episodes: copy_seen(&self.stage_seen_episodes),
        };
        proof {
            assert(r@ =~= self@);
        }
        r
    }

    /// A new run's state stamped with the time `now`.
    pub fn empty_at(training_run_id: &str, now: i64) -> (s: Self)
        ensures
            s@ == empty_chain(training_run_id@, now),
    {
        let root = crate::config::concat3("run:", training_run_id, "");
        proof {
            reveal_strlit("");
            assert(root@ =~= run_node_id(training_run_id@));
        }
        let mut nodes: Vec<TreeNode> = Vec::new();
        nodes.push(
            TreeNode {
                node_id: root.clone(),
                parent_id: String::new(),
                kind: "run".to_string(),
                ref_id: training_run_id.to_string(),
                status: "PENDING".to_string(),
                children_count: 0,
                meta: TreeMeta::Null,
            },
        );
        let s = ChainState {
            training_run_id: training_run_id.to_string(),
            run_state: "PENDING".to_string(),
            run_status: "pending".to_string(),
            terminal_reason: String::new(),
            last_heartbeat_ts: 0,
            heartbeat_state: "unknown".to_string(),
            updated_at: now,
            global_event_seq: 0,
            planned_episode_total: 0,
            planned_step_total: 0,
            workflow: default_workflow(),
            tree: TreeGraph { root_id: root, nodes },
            episodes: KeyedTable::new(),
            workers: KeyedTable::new(),
            cursor: EventCursor { last_event_id: String::new(), last_source_id: String::new(), last_seq: 0, last_ingest_ts: now },
            stage_seen_episodes: KeyedTable::new(),
        };
        proof {
            assert(tree_models(s.tree.nodes@) =~= empty_chain(training_run_id@, now).tree);
            assert(s@.episodes =~= Map::empty());
            assert(s@.workers =~= Map::empty());
            assert(s@.seen =~= Map::empty());
            assert(s@ =~= empty_chain(training_run_id@, now));
        }
        s
    }

    /// A new run's state stamped with the current time.
    pub fn empty(training_run_id: &str) -> (s: Self)
        ensures
            exists|now: i64| s@ == empty_chain(training_run_id@, now),
    {
        let now = crate::clock::now_ms();
        ChainState::empty_at(training_run_id, now)
    }
}

} // verus!
