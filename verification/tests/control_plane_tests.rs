use uenv_server::control_plane::{
    declared_capacity, heartbeat_lag_ms, heartbeat_reply, registered_worker_id, registration_reply,
    worker_info_for_registration, RegisterWorkerRequest,
};
use uenv_server::messages::{AgentJob, EpisodeRequest};
use uenv_server::string_map::StringMap;
use uenv_server::obs_summary::{list_order_ids, list_order_summaries};
use uenv_server::obs_views::RunSummary;
use uenv_server::persistence::{request_checksum, DispatchRecord, RecoveryAgentJob, RecoveryEpisode};
use uenv_server::recovery::{plan_agent_job_recovery, plan_recovery, recovery_wait_ms, resume_dispatch, RecoveryAction};

#[test]
fn worker_ids_are_generated_for_empty_or_auto() {
    assert_eq!(registered_worker_id("w-1"), "w-1");
    let a = registered_worker_id("");
    let b = registered_worker_id("auto");
    assert_eq!(a.len(), 36);
    assert_eq!(b.len(), 36);
    assert_ne!(a, b);
}

#[test]
fn declared_capacity_prefers_max_load_then_concurrency() {
    assert_eq!(declared_capacity(4, 9), 4);
    assert_eq!(declared_capacity(0, 3), 3);
    assert_eq!(declared_capacity(-2, 0), 1);
}

#[test]
fn registration_becomes_a_fresh_scheduler_record() {
    let req = RegisterWorkerRequest {
        worker_id: "w".into(),
        endpoint: "10.0.0.1:9000".into(),
        supported_env_types: vec!["math".into()],
        max_concurrent: 2,
        resource: None,
        load: -3,
        max_load: 0,
        gateway_public_url: "http://gw".into(),
        synced_env_packages: Vec::new(),
    };
    let w = worker_info_for_registration(&req, "w".into(), 1234);
    assert_eq!(w.capacity, 2);
    assert_eq!(w.current_load, 0);
    assert_eq!(w.reported_load, 0);
    assert_eq!(w.reserved_load, 0);
    assert!(!w.draining);
    assert_eq!(w.last_heartbeat_at, Some(1234));
    assert_eq!(w.supported_env_types, vec!["math".to_string()]);
    let loaded = RegisterWorkerRequest { load: 1, max_load: 5, ..req };
    let w2 = worker_info_for_registration(&loaded, "w".into(), 0);
    assert_eq!((w2.capacity, w2.current_load, w2.reported_load), (5, 1, 1));
}

#[test]
fn registration_and_heartbeat_replies() {
    let ok = registration_reply(true, "w".into(), 7);
    assert_eq!(ok.message, "accepted");
    assert_eq!(ok.server_epoch, 7);
    let refused = registration_reply(false, "w".into(), 7);
    assert_eq!(refused.message, "worker_id already has active lease; existing worker marked draining");
    let hb = heartbeat_reply(9, 5000);
    assert!(hb.ok);
    assert_eq!(hb.next_heartbeat_interval_ms, 5000);
    assert_eq!(hb.server_epoch, 9);
    assert_eq!(heartbeat_lag_ms(1000, 400), 600);
    assert_eq!(heartbeat_lag_ms(400, 1000), 0);
    assert_eq!(heartbeat_lag_ms(i64::MAX, i64::MIN), i64::MAX);
}

fn request(id: &str) -> EpisodeRequest {
    EpisodeRequest { episode_id: id.into(), attempt_id: 1, env_type: "math".into(), ..EpisodeRequest::default() }
}

fn dispatch() -> DispatchRecord {
    DispatchRecord {
        episode_id: "ep".into(),
        attempt_id: 3,
        dispatch_lease_id: "lease-3".into(),
        worker_id: "w".into(),
        worker_endpoint: "e".into(),
        dispatch_token: vec![9, 9],
        server_epoch: 12,
        phase: "dispatched".into(),
        dispatch_at_ms: 0,
        accepted_at_ms: None,
        deadline_at_ms: 0,
    }
}

#[test]
fn recovery_plans_follow_phase_and_checksum() {
    let req = request("ep");
    let checksum = request_checksum(&req);
    let rec = |phase: &str, d: Option<DispatchRecord>, sum: &str| RecoveryEpisode {
        request: request("ep"),
        request_checksum: sum.into(),
        phase: phase.into(),
        deadline_at_ms: 0,
        dispatch: d,
    };
    assert_eq!(plan_recovery(&rec("dispatched", Some(dispatch()), &checksum)), Ok(RecoveryAction::AwaitDispatch));
    assert_eq!(plan_recovery(&rec("queued", None, &checksum)), Ok(RecoveryAction::Resubmit));
    assert_eq!(plan_recovery(&rec("agent_dispatched", None, &checksum)), Ok(RecoveryAction::LeaveToAgentJobs));
    assert_eq!(
        plan_recovery(&rec("running", None, &checksum)),
        Err("cannot recover episode ep in phase running without dispatch".to_string())
    );
    assert_eq!(
        plan_recovery(&rec("queued", None, "bad")),
        Err("persisted request checksum mismatch for ep".to_string())
    );
}

fn agent_job() -> AgentJob {
    AgentJob {
        job_id: "job-1".to_string(),
        run_id: "run-1".to_string(),
        gateway_url: String::new(),
        gateway_api_key: String::new(),
        session_id: String::new(),
        instance_id: String::new(),
        benchmark_variant: String::new(),
        env_package_id: String::new(),
        env_package_version: String::new(),
        agent_bridge_id: String::new(),
        agent_bridge_version: String::new(),
        driver_entrypoint: String::new(),
        model_endpoint_config: String::new(),
        max_iterations: 0,
        workspace_dir: String::new(),
        episode_id: "ep".to_string(),
        llm_config_path: String::new(),
        mode: String::new(),
        parallel_mode: String::new(),
        enqueue_ts: None,
        metadata: StringMap::new(),
    }
}

#[test]
fn agent_job_recovery_keeps_the_lease_holder() {
    let req = request("ep");
    let checksum = request_checksum(&req);
    let job = |phase: &str, sum: &str| RecoveryAgentJob {
        request: request("ep"),
        request_checksum: sum.into(),
        pool_id: "p".into(),
        job: agent_job(),
        phase: phase.into(),
        agent_id: "agent-1".into(),
        deadline_at_ms: 0,
        gateway_public_url: None,
        gateway_api_key: None,
        session_id: None,
    };
    assert_eq!(plan_agent_job_recovery(&job("leased", &checksum)), Ok(Some("agent-1".to_string())));
    assert_eq!(plan_agent_job_recovery(&job("pending", &checksum)), Ok(None));
    assert_eq!(
        plan_agent_job_recovery(&job("leased", "x")),
        Err("persisted AgentJob request checksum mismatch for ep".to_string())
    );
}

#[test]
fn recovered_dispatch_is_put_back_on_the_request() {
    let mut req = request("ep");
    resume_dispatch(&mut req, &dispatch());
    assert_eq!(req.attempt_id, 3);
    assert_eq!(req.dispatch_lease_id, "lease-3");
    assert_eq!(req.dispatch_token, vec![9, 9]);
    assert_eq!(req.scheduler_epoch, 12);
    assert_eq!(req.env_type, "math");
    assert_eq!(recovery_wait_ms(5000, 2000), 3000);
    assert_eq!(recovery_wait_ms(2000, 5000), 0);
}

#[test]
fn run_ids_are_listed_greatest_first() {
    let ids = list_order_ids(vec!["run-a".into(), "run-c".into(), "run-b".into(), "run-c".into()]);
    assert_eq!(ids, vec!["run-c", "run-c", "run-b", "run-a"]);
}

fn summary(id: &str, started: i64, updated: i64) -> RunSummary {
    RunSummary {
        training_run_id: id.into(),
        run_state: String::new(),
        run_status: String::new(),
        terminal_reason: String::new(),
        last_heartbeat_ts: 0,
        heartbeat_state: String::new(),
        updated_at: updated,
        global_event_seq: 0,
        planned_episode_total: 0,
        planned_step_total: 0,
        started_at: started,
        active_stage: String::new(),
        active_stage_label: String::new(),
        episode_total: 0,
        episode_active: 0,
        episode_done: 0,
        episode_failed: 0,
        worker_total: 0,
    }
}

#[test]
fn summaries_are_listed_latest_started_first() {
    let v = list_order_summaries(vec![
        summary("a", 10, 1),
        summary("b", 30, 1),
        summary("c", 10, 5),
        summary("d", 10, 5),
    ]);
    let ids: Vec<&str> = v.iter().map(|s| s.training_run_id.as_str()).collect();
    assert_eq!(ids, vec!["b", "d", "c", "a"]);
}
