use uenv_server::clock::now_ms;
use uenv_server::scheduler::WorkerSnapshot;
use uenv_server::worker_status::{project_worker_status, worker_observation_changed, WorkerStatusSyncConfig};

fn snapshot_at(now: i64, load: u32, capacity: u32, heartbeat_age: u64, report_age: u64) -> WorkerSnapshot {
    let now = now as u64;
    WorkerSnapshot {
        worker_id: "worker-1".into(),
        endpoint: "127.0.0.1:9000".into(),
        supported_env_types: vec!["math".into()],
        capacity,
        current_load: load,
        reserved_load: load,
        reported_load: load,
        draining: false,
        last_report_at: Some(now - report_age * 1000),
        last_heartbeat_at: Some(now - heartbeat_age * 1000),
        degraded: heartbeat_age > 30 || (load > 0 && report_age > 400),
        gateway_public_url: String::new(),
        synced_env_packages: Vec::new(),
    }
}

fn config() -> WorkerStatusSyncConfig {
    WorkerStatusSyncConfig { interval_ms: 5_000, heartbeat_timeout_secs: 30, offline_timeout_secs: 90, degraded_threshold_secs: 400 }
}

#[test]
fn projects_busy_idle_attention_and_offline() {
    let now = now_ms();
    assert_eq!(project_worker_status(&snapshot_at(now, 1, 2, 1, 1), None, config(), now, vec!["ep-1".into()]).status, "BUSY");
    assert_eq!(project_worker_status(&snapshot_at(now, 0, 2, 1, 1), None, config(), now, Vec::new()).status, "IDLE");
    let attention = project_worker_status(&snapshot_at(now, 0, 2, 45, 1), None, config(), now, Vec::new());
    assert_eq!(attention.status, "ATTENTION");
    assert_eq!(attention.status_reason, "HEARTBEAT_LATE");
    let offline = project_worker_status(&snapshot_at(now, 0, 2, 120, 1), None, config(), now, Vec::new());
    assert_eq!(offline.status, "OFFLINE");
    assert_eq!(offline.status_reason, "HEARTBEAT_TIMEOUT");
}

#[test]
fn reports_stalled_busy_worker_as_attention() {
    let now = now_ms();
    let observation = project_worker_status(&snapshot_at(now, 1, 2, 1, 500), None, config(), now, vec!["ep-1".into()]);
    assert_eq!(observation.status, "ATTENTION");
    assert_eq!(observation.status_reason, "REPORT_STALLED");
}

#[test]
fn preserves_status_changed_timestamp_while_state_is_stable() {
    let base = now_ms();
    let first = project_worker_status(&snapshot_at(base, 0, 2, 1, 1), None, config(), 100, Vec::new());
    let second = project_worker_status(&snapshot_at(base, 0, 2, 2, 2), Some(&first), config(), 200, Vec::new());
    assert_eq!(second.status_changed_ts, 100);
    assert!(!worker_observation_changed(&first, &second));
}

#[test]
fn detects_active_episode_roster_changes() {
    let base = now_ms();
    let first = project_worker_status(&snapshot_at(base, 1, 2, 1, 1), None, config(), 100, vec!["a".into()]);
    let second = project_worker_status(&snapshot_at(base, 1, 2, 1, 1), Some(&first), config(), 200, vec!["a".into(), "b".into()]);
    assert!(worker_observation_changed(&first, &second));
    assert_eq!(second.active_episodes, vec!["a".to_string(), "b".to_string()]);
}
