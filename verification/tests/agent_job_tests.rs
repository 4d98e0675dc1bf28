use uenv_server::agent_job::{complete_refusal, completion_status_of, AgentJobQueue, CompleteCheck, PollOutcome};
use uenv_server::agent_pool::{AgentInfo, AgentRegistry, SyncedAgentBridgeInfo};
use uenv_server::clock::clock_ms;
use uenv_server::messages::AgentJob;
use uenv_server::string_map::StringMap;

fn agent(id: &str, bridge_version: &str) -> AgentInfo {
    AgentInfo {
        agent_id: id.to_string(),
        agent_pool_id: "openhands-default".to_string(),
        synced_agent_bridges: vec![SyncedAgentBridgeInfo {
            package_id: "uenv-agent-openhands".to_string(),
            version: bridge_version.to_string(),
            bundle_digest: String::new(),
        }],
        max_concurrent: 1,
        current_load: 0,
        reserved_load: 0,
        reported_load: 0,
        endpoint: String::new(),
        last_heartbeat_at: clock_ms(),
        labels: StringMap::new(),
    }
}

fn job(id: &str, run_id: &str, bridge_version: &str) -> AgentJob {
    AgentJob {
        job_id: id.to_string(),
        run_id: run_id.to_string(),
        gateway_url: String::new(),
        gateway_api_key: String::new(),
        session_id: "session-1".to_string(),
        instance_id: String::new(),
        benchmark_variant: String::new(),
        env_package_id: String::new(),
        env_package_version: String::new(),
        agent_bridge_id: "uenv-agent-openhands".to_string(),
        agent_bridge_version: bridge_version.to_string(),
        driver_entrypoint: String::new(),
        model_endpoint_config: String::new(),
        max_iterations: 0,
        workspace_dir: String::new(),
        episode_id: "episode-1".to_string(),
        llm_config_path: String::new(),
        mode: String::new(),
        parallel_mode: String::new(),
        enqueue_ts: None,
        metadata: StringMap::new(),
    }
}

fn setup() -> (AgentJobQueue, AgentRegistry) {
    let mut registry = AgentRegistry::new(60);
    registry.register(agent("a1", "1.0.0"), clock_ms());
    registry.register(agent("a2", "2.0.0"), clock_ms());
    (AgentJobQueue::new(), registry)
}

#[test]
fn poll_only_assigns_jobs_to_the_polling_agent() {
    let (mut queue, mut registry) = setup();
    queue.enqueue("openhands-default".to_string(), job("job-1", "run-1", "2.0.0"));
    assert!(matches!(queue.poll(&mut registry, "a1", "openhands-default", clock_ms()), PollOutcome::NoJob));
    assert_eq!(queue.pending_len("openhands-default"), 1);
    match queue.poll(&mut registry, "a2", "openhands-default", clock_ms()) {
        PollOutcome::Job(j) => assert_eq!(j.job_id, "job-1"),
        other => panic!("unexpected {other:?}"),
    }
    assert_eq!(queue.pending_len("openhands-default"), 0);
    assert_eq!(queue.in_flight_snapshot(), vec![("job-1".to_string(), "a2".to_string())]);
}

#[test]
fn complete_rejects_wrong_agent_or_run() {
    let (mut queue, mut registry) = setup();
    queue.enqueue("openhands-default".to_string(), job("job-1", "run-1", "2.0.0"));
    assert!(matches!(queue.poll(&mut registry, "a2", "openhands-default", clock_ms()), PollOutcome::Job(_)));
    let c = queue.check_completion("job-1", "run-x", "a2");
    assert!(matches!(c, CompleteCheck::RunMismatch));
    assert_eq!(complete_refusal(&c).map(|r| r.1), Some("RUN_MISMATCH"));
    assert!(matches!(queue.check_completion("job-1", "run-1", "a1"), CompleteCheck::AgentMismatch));
    assert!(matches!(queue.check_completion("job-x", "run-1", "a2"), CompleteCheck::UnknownJob));
    match queue.check_completion("job-1", "run-1", "a2") {
        CompleteCheck::Accept(e) => assert_eq!(e.episode_id, "episode-1"),
        other => panic!("unexpected {other:?}"),
    }
    let done = queue.finish(&mut registry, "job-1").expect("in flight");
    assert_eq!(done.agent_id, "a2");
    assert_eq!(queue.in_flight_len(), 0);
    assert_eq!(completion_status_of(""), "completed");
}

#[test]
fn reaper_fails_in_flight_job_of_stale_agent() {
    let (mut queue, mut registry) = setup();
    queue.enqueue("openhands-default".to_string(), job("job-1", "run-1", "2.0.0"));
    assert!(matches!(queue.poll(&mut registry, "a2", "openhands-default", clock_ms()), PollOutcome::Job(_)));
    let later = clock_ms() + 120_000;
    let reaped = queue.reap_stale_agent_jobs(&mut registry, later);
    assert_eq!(reaped.len(), 1);
    let r = &reaped[0];
    assert_eq!(r.job_id, "job-1");
    assert_eq!(r.result.status, "failed");
    assert_eq!(r.complete.status, "failed");
    assert!(r.complete.error_message.contains("stale"));
    assert_eq!(r.complete.metadata.get("failure_source").map(String::as_str), Some("agent_stale_reaper"));
    assert_eq!(r.result.episode_id, "episode-1");
    assert_eq!(queue.in_flight_len(), 0);
    assert!(matches!(queue.check_completion("job-1", "run-1", "a2"), CompleteCheck::UnknownJob));
}

#[test]
fn reaper_leaves_healthy_agent_jobs_untouched() {
    let (mut queue, mut registry) = setup();
    queue.enqueue("openhands-default".to_string(), job("job-1", "run-1", "2.0.0"));
    assert!(matches!(queue.poll(&mut registry, "a2", "openhands-default", clock_ms()), PollOutcome::Job(_)));
    assert!(queue.reap_stale_agent_jobs(&mut registry, clock_ms()).is_empty());
    assert_eq!(queue.in_flight_len(), 1);
}

#[test]
fn poll_unknown_agent_must_register_again() {
    let (mut queue, mut registry) = setup();
    queue.enqueue("openhands-default".to_string(), job("job-1", "run-1", "1.0.0"));
    assert!(matches!(queue.poll(&mut registry, "ghost", "openhands-default", clock_ms()), PollOutcome::NotRegistered));
    assert!(matches!(queue.poll(&mut registry, "", "openhands-default", clock_ms()), PollOutcome::NoJob));
    assert!(queue.is_pending("openhands-default", "job-1"));
}

#[test]
fn abandon_removes_pending_and_in_flight_records() {
    let (mut queue, mut registry) = setup();
    queue.enqueue("openhands-default".to_string(), job("job-1", "run-1", "1.0.0"));
    queue.enqueue("openhands-default".to_string(), job("job-2", "run-2", "1.0.0"));
    queue.abandon(&mut registry, "openhands-default", "job-1");
    assert!(!queue.is_pending("openhands-default", "job-1"));
    assert!(queue.is_pending("openhands-default", "job-2"));
    assert_eq!(queue.in_flight_len(), 1);
}

#[test]
fn refused_lease_puts_the_job_back_first_and_frees_the_agent() {
    let (mut queue, mut registry) = setup();
    queue.enqueue("openhands-default".to_string(), job("job-1", "run-1", "2.0.0"));
    queue.enqueue("openhands-default".to_string(), job("job-2", "run-2", "2.0.0"));
    let taken = match queue.poll(&mut registry, "a2", "openhands-default", clock_ms()) {
        PollOutcome::Job(j) => j,
        other => panic!("unexpected {other:?}"),
    };
    assert_eq!(taken.job_id, "job-1");
    queue.unlease(&mut registry, "openhands-default".to_string(), taken, "a2");
    assert_eq!(queue.pending_len("openhands-default"), 2);
    assert!(queue.in_flight_snapshot().contains(&("job-1".to_string(), String::new())));
    match queue.poll(&mut registry, "a2", "openhands-default", clock_ms()) {
        PollOutcome::Job(j) => assert_eq!(j.job_id, "job-1"),
        other => panic!("unexpected {other:?}"),
    }
}
