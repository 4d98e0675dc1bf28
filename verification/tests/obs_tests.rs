use uenv_server::obs::{
    next_server_seq, orphan_run_id, resolve_training_run_id, server_source_id, Disposition, MergeGate, ObsConfig, ObsEnv,
    ServerSeq,
};
use uenv_server::obs_views::{count_episode_statuses, default_workflow_edges, timeline_stage, EpisodeView};

#[test]
fn run_ids_fall_back_to_the_orphan_run() {
    assert_eq!(orphan_run_id(), "_orphan");
    assert_eq!(resolve_training_run_id(Some("run-1")), "run-1");
    assert_eq!(resolve_training_run_id(Some("")), "_orphan");
    assert_eq!(resolve_training_run_id(None), "_orphan");
}

#[test]
fn server_source_ids_and_sequence_numbers() {
    assert_eq!(server_source_id(42), "server:42");
    assert_eq!(server_source_id(0), "server:0");
    let mut seq = ServerSeq::new();
    assert_eq!(next_server_seq(&mut seq), 1);
    assert_eq!(next_server_seq(&mut seq), 2);
}

#[test]
fn gate_rejects_duplicates_and_stale_numbers() {
    let mut gate = MergeGate::new();
    let first = gate.decide(Some("run-1"), "EPISODE_SUBMITTED", "server:1", 5);
    assert_eq!(first.disposition, Disposition::Accepted);
    assert_eq!(first.training_run_id, "run-1");
    assert_eq!(gate.decide(Some("run-1"), "EPISODE_SUBMITTED", "server:1", 5).disposition, Disposition::Duplicate);
    assert_eq!(gate.decide(Some("run-1"), "EPISODE_SUBMITTED", "server:1", 4).disposition, Disposition::SeqStale);
    assert_eq!(gate.decide(Some("run-1"), "EPISODE_SUBMITTED", "server:2", 1).disposition, Disposition::Accepted);
    assert_eq!(gate.decide(Some("run-1"), "EPISODE_SUBMITTED", "server:1", 6).disposition, Disposition::Accepted);
}

#[test]
fn closed_run_takes_only_run_events() {
    let mut gate = MergeGate::new();
    let started = gate.decide(Some("run-1"), "RUN_STARTED", "src", 1);
    assert!(started.full_hint);
    assert_eq!(gate.lifecycle("run-1").expect("known").run_state, "RUNNING");
    let closed = gate.decide(Some("run-1"), "RUN_CLOSED", "src", 2);
    assert_eq!(closed.disposition, Disposition::Accepted);
    let life = gate.lifecycle("run-1").expect("known");
    assert_eq!(life.run_state, "CLOSED");
    assert!(life.closed);
    assert_eq!(gate.decide(Some("run-1"), "EPISODE_SUBMITTED", "src", 3).disposition, Disposition::RejectedClosed);
    assert_eq!(gate.decide(Some("run-1"), "RUN_STARTED", "src", 4).disposition, Disposition::Accepted);
    assert!(!gate.lifecycle("run-1").expect("known").closed);
}

#[test]
fn events_without_a_run_go_to_the_orphan_run() {
    let mut gate = MergeGate::new();
    let outcome = gate.decide(None, "WORKER_HEARTBEAT", "worker:1", 1);
    assert_eq!(outcome.training_run_id, "_orphan");
    assert!(!outcome.full_hint);
    assert_eq!(gate.lifecycle("_orphan").expect("known").run_state, "PENDING");
}

#[test]
fn obs_config_defaults_and_overrides() {
    let env = ObsEnv {
        enabled: None,
        data_dir: None,
        token: Some(String::new()),
        http_listen: None,
        queue_capacity: Some("oops".to_string()),
        seed_on_start: Some(" Yes ".to_string()),
        auto_mock: Some("0".to_string()),
    };
    let cfg = ObsConfig::from_env_values(&env);
    assert!(cfg.enabled);
    assert_eq!(cfg.data_dir, "./obs-data");
    assert_eq!(cfg.db_path, "./obs-data/obs.db");
    assert_eq!(cfg.token, None);
    assert_eq!(cfg.http_listen, "0.0.0.0:50053");
    assert_eq!(cfg.queue_capacity, 8192);
    assert!(cfg.seed_on_start);
    assert!(!cfg.auto_mock_empty_run);

    let env = ObsEnv {
        enabled: Some("off".to_string()),
        data_dir: Some("/data/".to_string()),
        token: Some("t".to_string()),
        http_listen: Some("127.0.0.1:1".to_string()),
        queue_capacity: Some("+16".to_string()),
        seed_on_start: None,
        auto_mock: Some("TRUE".to_string()),
    };
    let cfg = ObsConfig::from_env_values(&env);
    assert!(!cfg.enabled);
    assert_eq!(cfg.db_path, "/data/obs.db");
    assert_eq!(cfg.token.as_deref(), Some("t"));
    assert_eq!(cfg.queue_capacity, 16);
    assert!(cfg.auto_mock_empty_run);
}

#[test]
fn workflow_edges_chain_the_stages() {
    let edges = default_workflow_edges();
    let pairs: Vec<(String, String)> = edges.into_iter().map(|e| (e.from, e.to)).collect();
    assert_eq!(
        pairs,
        vec![
            ("submit".to_string(), "dispatch".to_string()),
            ("dispatch".to_string(), "execute".to_string()),
            ("execute".to_string(), "report".to_string()),
            ("report".to_string(), "done".to_string()),
        ]
    );
}

#[test]
fn timeline_stages_of_event_types() {
    let s = timeline_stage("EPISODE_SUBMITTED", false).expect("stage");
    assert_eq!((s.stage, s.order, s.status), ("SUBMIT", 10, "DONE"));
    let s = timeline_stage("STEP_COMPLETE", false).expect("stage");
    assert_eq!(s.stage, "EXECUTE");
    let s = timeline_stage("EPISODE_CLOSED", true).expect("stage");
    assert_eq!((s.stage, s.status), ("FAILED", "FAILED"));
    let s = timeline_stage("EPISODE_CLOSED", false).expect("stage");
    assert_eq!(s.stage, "DONE");
    assert!(timeline_stage("WORKER_HEARTBEAT", false).is_none());
}

fn view(status: &str) -> EpisodeView {
    EpisodeView {
        episode_id: "e".to_string(),
        correlation_id: String::new(),
        attempt_id: 1,
        worker_id: String::new(),
        env_type: String::new(),
        step_index: 0,
        status: status.to_string(),
        stage: String::new(),
        event_seq: 0,
        last_source_ts: 0,
        trajectory_id: None,
    }
}

#[test]
fn episode_status_counts() {
    let eps = vec![view("ACTIVE"), view("DONE"), view("CLOSED"), view("FAILED"), view("PENDING")];
    assert_eq!(count_episode_statuses(&eps), (1, 2, 1));
}
