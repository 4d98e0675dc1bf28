//! The observability read models: the views of episodes, workers and runs
//! that clients receive, the workflow's edges, the timeline stage each event
//! belongs to, and the episode counts of a run summary.
use crate::text::str_eq;
use vstd::prelude::*;

verus! {

broadcast use vstd::string::group_string_axioms;

/// An edge of the workflow graph.
#[derive(Debug, Clone)]
pub struct WorkflowEdge {
    pub from: String,
    pub to: String,
}

/// The workflow's edges: submit → dispatch → execute → report → done.
pub fn default_workflow_edges() -> (edges: Vec<WorkflowEdge>)
    ensures
        edges@.len() == 4,
        edges@[0].from@ == "submit"@ && edges@[0].to@ == "dispatch"@,
        edges@[1].from@ == "dispatch"@ && edges@[1].to@ == "execute"@,
        edges@[2].from@ == "execute"@ && edges@[2].to@ == "report"@,
        edges@[3].from@ == "report"@ && edges@[3].to@ == "done"@,
{
    let mut edges: Vec<WorkflowEdge> = Vec::new();
    edges.push(WorkflowEdge { from: "submit".to_string(), to: "dispatch".to_string() });
    edges.push(WorkflowEdge { from: "dispatch".to_string(), to: "execute".to_string() });
    edges.push(WorkflowEdge { from: "execute".to_string(), to: "report".to_string() });
    edges.push(WorkflowEdge { from: "report".to_string(), to: "done".to_string() });
    edges
}

/// An episode as a run's state shows it.
#[derive(Debug, Clone)]
pub struct EpisodeView {
    pub episode_id: String,
    pub correlation_id: String,
    pub attempt_id: u32,
    pub worker_id: String,
    pub env_type: String,
    pub step_index: i32,
    pub status: String,
    /// The workflow stage the episode is in: SUBMIT, DISPATCH, EXECUTE,
    /// REPORT, then DONE or FAILED.
    pub stage: String,
    pub event_seq: u64,
    pub last_source_ts: i64,
    pub trajectory_id: Option<String>,
}

/// A worker as a run's state shows it.
#[derive(Debug, Clone)]
pub struct WorkerView {
    pub worker_id: String,
    pub active_episodes: Vec<String>,
    pub env_instances: Vec<String>,
    pub last_heartbeat_ts: i64,
    pub status: String,
    /// A stable reason code for operators, such as READY, HEARTBEAT_LATE or
    /// UNREGISTERED.
    pub status_reason: String,
    pub status_changed_ts: i64,
    pub current_load: u32,
    pub capacity: u32,
    pub endpoint: String,
    pub supported_env_types: Vec<String>,
}

/// A run's status as pushed to clients.
#[derive(Debug, Clone)]
pub struct RunStatusPayload {
    pub training_run_id: String,
    pub run_state: String,
    pub run_status: String,
    pub terminal_reason: String,
    pub last_heartbeat_ts: i64,
    pub heartbeat_state: String,
    pub updated_at: i64,
}

/// A summary of a run.
#[derive(Debug, Clone)]
pub struct RunSummary {
    pub training_run_id: String,
    pub run_state: String,
    pub run_status: String,
    pub terminal_reason: String,
    pub last_heartbeat_ts: i64,
    pub heartbeat_state: String,
    pub updated_at: i64,
    pub global_event_seq: u64,
    pub planned_episode_total: u64,
    pub planned_step_total: u64,
    pub started_at: i64,
    pub active_stage: String,
    pub active_stage_label: String,
    pub episode_total: usize,
    pub episode_active: usize,
    pub episode_done: usize,
    pub episode_failed: usize,
    pub worker_total: usize,
}

/// One stage of a run's timeline.
#[derive(Debug, Clone)]
pub struct RunTimelineItem {
    pub stage: String,
    pub label: String,
    pub status: String,
    pub first_source_ts: i64,
    pub last_source_ts: i64,
    pub event_count: usize,
    pub episode_count: usize,
}

/// The timeline stage of an event: stage name, label, order and status.
pub struct TimelineStage {
    pub stage: &'static str,
    pub label: &'static str,
    pub order: u8,
    pub status: &'static str,
}

/// The stage name, order and status of an event type on a run's timeline (an
/// `EPISODE_CLOSED` of an episode that failed counts as failed).
pub open spec fn stage_of(event_type: Seq<char>, episode_failed: bool) -> Option<(Seq<char>, u8, Seq<char>)> {
    if event_type == "RUN_STARTED"@ {
        Some(("RUN_STARTED"@, 0u8, "DONE"@))
    } else if event_type == "EPISODE_SUBMITTED"@ {
        Some(("SUBMIT"@, 10u8, "DONE"@))
    } else if event_type == "EPISODE_SCHEDULING"@ {
        Some(("DISPATCH"@, 20u8, "DONE"@))
    } else if event_type == "EPISODE_DISPATCHED"@ || event_type == "ATTEMPT_STARTED"@ || event_type == "STEP_STARTED"@
        || event_type == "STEP_COMPLETE"@ || event_type == "ATTEMPT_CLOSED"@ {
        Some(("EXECUTE"@, 30u8, "DONE"@))
    } else if event_type == "EPISODE_REPORTING"@ {
        Some(("REPORT"@, 40u8, "DONE"@))
    } else if event_type == "EPISODE_COMPLETED"@ {
        Some(("DONE"@, 50u8, "DONE"@))
    } else if event_type == "EPISODE_FAILED"@ {
        Some(("FAILED"@, 60u8, "FAILED"@))
    } else if event_type == "EPISODE_CLOSED"@ {
        if episode_failed { Some(("FAILED"@, 60u8, "FAILED"@)) } else { Some(("DONE"@, 50u8, "DONE"@)) }
    } else if event_type == "RUN_STOPPED"@ {
        Some(("RUN_STOPPED"@, 90u8, "DONE"@))
    } else if event_type == "RUN_COMPLETED"@ {
        Some(("RUN_COMPLETED"@, 95u8, "DONE"@))
    } else if event_type == "RUN_TERMINATED"@ {
        Some(("RUN_TERMINATED"@, 96u8, "DONE"@))
    } else if event_type == "RUN_FAILED"@ {
        Some(("RUN_FAILED"@, 97u8, "FAILED"@))
    } else if event_type == "RUN_CLOSED"@ {
        Some(("RUN_CLOSED"@, 99u8, "DONE"@))
    } else {
        None
    }
}

fn make_stage(name: &'static str, label: &'static str, order: u8, status: &'static str) -> (t: TimelineStage)
    ensures
        t.stage == name && t.label == label && t.order == order && t.status == status,
{
    TimelineStage { stage: name, label, order, status }
}

/// The timeline stage of an event type, if it has one.
pub fn timeline_stage(event_type: &str, episode_failed: bool) -> (r: Option<TimelineStage>)
    ensures
        match stage_of(event_type@, episode_failed) {
            Some((name, order, status)) => r matches Some(t) && t.stage@ == name && t.order == order && t.status@
                == status,
            None => r is None,
        },
{
    if str_eq(event_type, "RUN_STARTED") {
        Some(make_stage("RUN_STARTED", "任务启动", 0, "DONE"))
    } else if str_eq(event_type, "EPISODE_SUBMITTED") {
        Some(make_stage("SUBMIT", "提交任务", 10, "DONE"))
    } else if str_eq(event_type, "EPISODE_SCHEDULING") {
        Some(make_stage("DISPATCH", "调度下发", 20, "DONE"))
    } else if str_eq(event_type, "EPISODE_DISPATCHED") || str_eq(event_type, "ATTEMPT_STARTED") || str_eq(
        event_type,
        "STEP_STARTED",
    ) || str_eq(event_type, "STEP_COMPLETE") || str_eq(event_type, "ATTEMPT_CLOSED") {
        Some(make_stage("EXECUTE", "环境执行", 30, "DONE"))
    } else if str_eq(event_type, "EPISODE_REPORTING") {
        Some(make_stage("REPORT", "结果回传", 40, "DONE"))
    } else if str_eq(event_type, "EPISODE_COMPLETED") {
        Some(make_stage("DONE", "完成收口", 50, "DONE"))
    } else if str_eq(event_type, "EPISODE_FAILED") {
        Some(make_stage("FAILED", "失败收口", 60, "FAILED"))
    } else if str_eq(event_type, "EPISODE_CLOSED") {
        if episode_failed {
            Some(make_stage("FAILED", "失败收口", 60, "FAILED"))
        } else {
            Some(make_stage("DONE", "完成收口", 50, "DONE"))
        }
    } else if str_eq(event_type, "RUN_STOPPED") {
        Some(make_stage("RUN_STOPPED", "停止请求", 90, "DONE"))
    } else if str_eq(event_type, "RUN_COMPLETED") {
        Some(make_stage("RUN_COMPLETED", "任务完成", 95, "DONE"))
    } else if str_eq(event_type, "RUN_TERMINATED") {
        Some(make_stage("RUN_TERMINATED", "任务终止", 96, "DONE"))
    } else if str_eq(event_type, "RUN_FAILED") {
        Some(make_stage("RUN_FAILED", "任务失败", 97, "FAILED"))
    } else if str_eq(event_type, "RUN_CLOSED") {
        Some(make_stage("RUN_CLOSED", "任务关闭", 99, "DONE"))
    } else {
        None
    }
}

/// Counts of a run's episodes by status: active, done (DONE or CLOSED) and
/// failed; other statuses count only toward the total.
pub open spec fn status_counts(statuses: Seq<Seq<char>>) -> (nat, nat, nat)
    decreases statuses.len(),
{
    if statuses.len() == 0 {
        (0, 0, 0)
    } else {
        let c = status_counts(statuses.drop_last());
        let s = statuses.last();
        if s == "DONE"@ || s == "CLOSED"@ {
            (c.0, c.1 + 1, c.2)
        } else if s == "FAILED"@ {
            (c.0, c.1, c.2 + 1)
        } else if s == "ACTIVE"@ {
            (c.0 + 1, c.1, c.2)
        } else {
            c
        }
    }
}

proof fn lemma_status_counts_bounded(statuses: Seq<Seq<char>>)
    ensures
        status_counts(statuses).0 + status_counts(statuses).1 + status_counts(statuses).2 <= statuses.len(),
    decreases statuses.len(),
{
    if statuses.len() > 0 {
        lemma_status_counts_bounded(statuses.drop_last());
    }
}

/// The statuses of the episodes.
pub open spec fn episode_statuses(episodes: Seq<EpisodeView>) -> Seq<Seq<char>> {
    episodes.map_values(|e: EpisodeView| e.status@)
}

/// Counts the episodes that are active, done and failed.
pub fn count_episode_statuses(episodes: &Vec<EpisodeView>) -> (r: (usize, usize, usize))
    ensures
        r.0 == status_counts(episode_statuses(episodes@)).0,
        r.1 == status_counts(episode_statuses(episodes@)).1,
        r.2 == status_counts(episode_statuses(episodes@)).2,
{
    let ghost all = episode_statuses(episodes@);
    let mut active: usize = 0;
    let mut done: usize = 0;
    let mut failed: usize = 0;
    let mut i: usize = 0;
    while i < episodes.len()
        invariant
            i <= episodes@.len(),
            all == episode_statuses(episodes@),
            (active as nat, done as nat, failed as nat) == status_counts(all.take(i as int)),
        decreases episodes@.len() - i,
    {
        let s = episodes[i].status.as_str();
        proof {
            assert(all.take(i + 1).drop_last() =~= all.take(i as int));
            assert(all.take(i + 1).last() == s@);
            lemma_status_counts_bounded(all.take(i + 1));
        }
        if str_eq(s, "DONE") || str_eq(s, "CLOSED") {
            done = done + 1;
        } else if str_eq(s, "FAILED") {
            failed = failed + 1;
        } else if str_eq(s, "ACTIVE") {
            active = active + 1;
        }
        i = i + 1;
    }
    proof {
        assert(all.take(episodes@.len() as int) =~= all);
    }
    (active, done, failed)
}

} // verus!
