use uenv_server::fleet_sync::FleetTracker;
use uenv_server::scheduler::WorkerSnapshot;
use uenv_server::state::ActiveEpisode;
use uenv_server::worker_status::WorkerStatusSyncConfig;

const NOW: i64 = 1_700_000_000_000;

fn worker(id: &str, load: u32) -> WorkerSnapshot {
    let now = NOW as u64;
    WorkerSnapshot {
        worker_id: id.into(),
        endpoint: format!("{id}:9000"),
        supported_env_types: vec!["math".into()],
        capacity: 2,
        current_load: load,
        reserved_load: load,
        reported_load: load,
        draining: false,
        last_report_at: Some(now - 1000),
        last_heartbeat_at: Some(now - 1000),
        degraded: false,
        gateway_public_url: String::new(),
        synced_env_packages: Vec::new(),
    }
}

fn running(episode: &str, worker: &str) -> ActiveEpisode {
    ActiveEpisode {
        episode_id: episode.into(),
        attempt_id: 1,
        worker_id: worker.into(),
        started_at_ms: 0,
        parallel_mode: "sync".into(),
        enqueue_at_ms: 0,
        enqueue_ts: 0,
        batch_id: "batch-1".into(),
    }
}

fn config() -> WorkerStatusSyncConfig {
    WorkerStatusSyncConfig { interval_ms: 5_000, heartbeat_timeout_secs: 30, offline_timeout_secs: 90, degraded_threshold_secs: 400 }
}

#[test]
fn first_round_publishes_every_worker_with_its_episodes() {
    let mut tracker = FleetTracker::new();
    assert!(tracker.is_first());
    let snaps = vec![worker("w-1", 1), worker("w-2", 0)];
    let active = vec![running("ep-1", "w-1"), running("ep-2", "w-3")];
    let round = tracker.sync_round(&snaps, &active, config(), NOW);
    assert!(round.emit);
    assert!(!tracker.is_first());
    assert_eq!(round.observed.len(), 2);
    assert_eq!(round.changed.len(), 2);
    assert_eq!(round.changed[0].worker_id, "w-1");
    assert_eq!(round.changed[0].status, "BUSY");
    assert_eq!(round.changed[0].active_episodes, vec!["ep-1".to_string()]);
    assert_eq!(round.changed[1].worker_id, "w-2");
    assert_eq!(round.changed[1].status, "IDLE");
    assert!(round.changed[1].active_episodes.is_empty());
    assert_eq!(tracker.observation_of("w-2").unwrap().status_changed_ts, NOW);
}

#[test]
fn first_round_publishes_even_an_empty_fleet() {
    let mut tracker = FleetTracker::new();
    let round = tracker.sync_round(&Vec::new(), &Vec::new(), config(), NOW);
    assert!(round.emit);
    assert!(round.changed.is_empty());
    let again = tracker.sync_round(&Vec::new(), &Vec::new(), config(), NOW + 5_000);
    assert!(!again.emit);
}

#[test]
fn unchanged_fleet_publishes_nothing_and_keeps_change_time() {
    let mut tracker = FleetTracker::new();
    let snaps = vec![worker("w-1", 0)];
    tracker.sync_round(&snaps, &Vec::new(), config(), NOW);
    let round = tracker.sync_round(&snaps, &Vec::new(), config(), NOW + 5_000);
    assert!(!round.emit);
    assert!(round.changed.is_empty());
    assert_eq!(round.observed[0].status_changed_ts, NOW);
    assert_eq!(tracker.observation_of("w-1").unwrap().status_changed_ts, NOW);
}

#[test]
fn roster_change_is_published() {
    let mut tracker = FleetTracker::new();
    let snaps = vec![worker("w-1", 1)];
    tracker.sync_round(&snaps, &vec![running("ep-1", "w-1")], config(), NOW);
    let round = tracker.sync_round(&snaps, &vec![running("ep-1", "w-1"), running("ep-2", "w-1")], config(), NOW + 5_000);
    assert!(round.emit);
    assert_eq!(round.changed.len(), 1);
    assert_eq!(round.changed[0].active_episodes, vec!["ep-1".to_string(), "ep-2".to_string()]);
}

#[test]
fn departed_worker_becomes_an_offline_tombstone_once() {
    let mut tracker = FleetTracker::new();
    tracker.sync_round(&vec![worker("w-1", 1), worker("w-2", 0)], &Vec::new(), config(), NOW);
    let round = tracker.sync_round(&vec![worker("w-2", 0)], &Vec::new(), config(), NOW + 5_000);
    assert!(round.emit);
    assert_eq!(round.changed.len(), 1);
    let tomb = &round.changed[0];
    assert_eq!(tomb.worker_id, "w-1");
    assert_eq!(tomb.status, "OFFLINE");
    assert_eq!(tomb.status_reason, "UNREGISTERED");
    assert_eq!(tomb.status_changed_ts, NOW + 5_000);
    assert_eq!(tomb.current_load, 0);
    assert_eq!(tomb.capacity, 2);
    assert_eq!(tomb.endpoint, "w-1:9000");
    assert!(tomb.active_episodes.is_empty());
    assert_eq!(tomb.last_heartbeat_ts, NOW - 1000);
    assert_eq!(tracker.observation_of("w-1").unwrap().status, "OFFLINE");
    let later = tracker.sync_round(&vec![worker("w-2", 0)], &Vec::new(), config(), NOW + 10_000);
    assert!(!later.emit);
    assert!(tracker.observation_of("w-1").is_some());
}

#[test]
fn returning_worker_is_observed_again() {
    let mut tracker = FleetTracker::new();
    tracker.sync_round(&vec![worker("w-1", 0)], &Vec::new(), config(), NOW);
    tracker.sync_round(&Vec::new(), &Vec::new(), config(), NOW + 5_000);
    let round = tracker.sync_round(&vec![worker("w-1", 0)], &Vec::new(), config(), NOW + 10_000);
    assert!(round.emit);
    assert_eq!(round.changed.len(), 1);
    assert_eq!(round.changed[0].status, "IDLE");
    assert_eq!(round.changed[0].status_changed_ts, NOW + 10_000);
}

#[test]
fn repeated_snapshot_of_a_worker_gets_its_episodes_once() {
    let mut tracker = FleetTracker::new();
    let snaps = vec![worker("w-1", 1), worker("w-1", 1)];
    let round = tracker.sync_round(&snaps, &vec![running("ep-1", "w-1")], config(), NOW);
    assert_eq!(round.observed[0].active_episodes, vec!["ep-1".to_string()]);
    assert!(round.observed[1].active_episodes.is_empty());
    assert_eq!(round.changed.len(), 2);
    assert!(tracker.observation_of("w-1").unwrap().active_episodes.is_empty());
}
