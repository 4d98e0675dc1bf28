use uenv_server::admin_query::{admin_status, agent_status, pending_by_pool};
use uenv_server::scheduler::{RoundRobinScheduler, Scheduler, WorkerInfo};
use uenv_server::admin_query::{in_flight_dto, pool_summaries, running_jobs, sort_longest_first, total_capacity, worker_dto, worker_status_label, EpisodeDto};
use uenv_server::agent_pool::AgentSnapshot;
use uenv_server::scheduler::WorkerSnapshot;
use uenv_server::state::ActiveEpisode;
use uenv_server::string_map::StringMap;

fn snapshot(id: &str, capacity: u32) -> WorkerSnapshot {
    WorkerSnapshot {
        worker_id: id.to_string(),
        endpoint: "127.0.0.1:50052".to_string(),
        supported_env_types: vec!["math".to_string()],
        capacity,
        current_load: 0,
        reserved_load: 0,
        reported_load: 0,
        draining: false,
        last_report_at: Some(1_000),
        last_heartbeat_at: Some(4_000),
        degraded: false,
        gateway_public_url: String::new(),
        synced_env_packages: Vec::new(),
    }
}

fn active(id: &str, worker: &str, started: u64) -> ActiveEpisode {
    ActiveEpisode {
        episode_id: id.to_string(),
        attempt_id: 1,
        worker_id: worker.to_string(),
        started_at_ms: started,
        parallel_mode: "sync".to_string(),
        enqueue_at_ms: started,
        enqueue_ts: 0,
        batch_id: "batch-1".to_string(),
    }
}

#[test]
fn worker_view_lists_its_episodes_longest_first() {
    let eps = vec![active("ep-short", "worker-1", 9_000), active("ep-other", "worker-2", 0), active("ep-long", "worker-1", 1_000)];
    let d = worker_dto(snapshot("worker-1", 2), &eps, 10_000);
    assert_eq!(d.status, "ready");
    assert_eq!(d.last_heartbeat_secs, Some(6));
    assert_eq!(d.last_report_secs, Some(9));
    let ids: Vec<&str> = d.episodes.iter().map(|e| e.episode_id.as_str()).collect();
    assert_eq!(ids, vec!["ep-long", "ep-short"]);
    assert_eq!(d.episodes[0].elapsed_secs, 9);
    assert_eq!(d.episodes[0].batch_id, "batch-1");
}

#[test]
fn status_labels_and_totals() {
    assert_eq!(worker_status_label(true, true), "draining");
    assert_eq!(worker_status_label(false, true), "degraded");
    assert_eq!(worker_status_label(false, false), "ready");
    assert_eq!(total_capacity(&vec![snapshot("a", 2), snapshot("b", 3)]), 5);
    assert_eq!(running_jobs(5, 2), 3);
    assert_eq!(running_jobs(1, 2), 0);
    assert_eq!(in_flight_dto("job-1".to_string(), String::new()).agent_id, None);
    assert_eq!(in_flight_dto("job-1".to_string(), "a1".to_string()).agent_id.as_deref(), Some("a1"));
}

#[test]
fn sort_keeps_every_episode() {
    let v = vec![
        EpisodeDto { episode_id: "a".to_string(), attempt_id: 1, batch_id: String::new(), elapsed_secs: 1 },
        EpisodeDto { episode_id: "b".to_string(), attempt_id: 1, batch_id: String::new(), elapsed_secs: 3 },
        EpisodeDto { episode_id: "c".to_string(), attempt_id: 1, batch_id: String::new(), elapsed_secs: 2 },
    ];
    let s = sort_longest_first(v);
    let ids: Vec<&str> = s.iter().map(|e| e.episode_id.as_str()).collect();
    assert_eq!(ids, vec!["b", "c", "a"]);
}

fn agent(id: &str, pool: &str, max: u32, load: u32, stale: bool) -> AgentSnapshot {
    AgentSnapshot {
        agent_id: id.to_string(),
        agent_pool_id: pool.to_string(),
        max_concurrent: max,
        current_load: load,
        reserved_load: load,
        reported_load: 0,
        stale,
        last_heartbeat_secs: 1,
        bridges: Vec::new(),
        labels: StringMap::new(),
    }
}

#[test]
fn pool_summaries_skip_stale_agents() {
    let agents = vec![agent("a1", "pool-a", 2, 1, false), agent("b1", "pool-b", 5, 0, true), agent("a2", "pool-a", 3, 2, false)];
    let pending = vec![("pool-a".to_string(), 4usize)];
    let pools = pool_summaries(&agents, &pending);
    assert_eq!(pools.len(), 1);
    assert_eq!(pools[0].agent_pool_id, "pool-a");
    assert_eq!(pools[0].total_capacity, 5);
    assert_eq!(pools[0].total_load, 3);
    assert_eq!(pools[0].pending_jobs, 4);
}

#[test]
fn status_collects_worker_episode_and_pending_counts() {
    let now: u64 = 1_700_000_000_000;
    let mut scheduler = RoundRobinScheduler::new(60, 60);
    scheduler.register_worker(WorkerInfo {
        worker_id: "worker-1".to_string(),
        endpoint: "127.0.0.1:50052".to_string(),
        supported_env_types: vec!["math".to_string()],
        capacity: 2,
        current_load: 0,
        reserved_load: 0,
        reported_load: 0,
        resource: None,
        draining: false,
        last_report_at: Some(now),
        last_heartbeat_at: Some(now),
        gateway_public_url: String::new(),
        synced_env_packages: Vec::new(),
    });
    let active = vec![ActiveEpisode {
        episode_id: "ep-admin".to_string(),
        attempt_id: 1,
        worker_id: "worker-1".to_string(),
        started_at_ms: now,
        parallel_mode: "sync".to_string(),
        enqueue_at_ms: now,
        enqueue_ts: 0,
        batch_id: "batch-1".to_string(),
    }];
    // One result is pending: ("ep-admin", 1, "lease-1").
    let pending_results = 1;
    let status = admin_status(
        7,
        scheduler.worker_count(),
        scheduler.list_workers_at(now),
        &active,
        pending_results,
        4,
        now,
    );
    assert_eq!(status.worker_count, 1);
    assert_eq!(status.total_capacity, 2);
    assert_eq!(status.active_episodes, 1);
    assert_eq!(status.pending_results, 1);
    assert_eq!(status.workers[0].episodes[0].episode_id, "ep-admin");
    assert_eq!(status.server_epoch, 7);
    assert_eq!(status.queue_permits, 4);
    assert_eq!(status.workers[0].status, "ready");
}

#[test]
fn pending_by_pool_counts_each_pool_once_in_first_order() {
    let ids: Vec<String> = vec!["pool-b".into(), "pool-a".into(), "pool-b".into()];
    let counts = pending_by_pool(&ids);
    assert_eq!(counts, vec![("pool-b".to_string(), 2), ("pool-a".to_string(), 1)]);
    assert!(pending_by_pool(&Vec::new()).is_empty());
}

#[test]
fn agent_status_sums_live_agents_and_splits_jobs() {
    let agents = vec![agent("a1", "pool-a", 2, 1, false), agent("a2", "pool-a", 3, 0, true), agent("a3", "pool-b", 1, 1, false)];
    let pending = vec![("pool-a".to_string(), 2usize)];
    let in_flight = vec![("job-1".to_string(), "a1".to_string()), ("job-2".to_string(), String::new())];
    let s = agent_status(9, agents, &pending, in_flight, 3);
    assert_eq!(s.server_epoch, 9);
    assert_eq!(s.agent_count, 3);
    assert_eq!(s.outstanding_jobs, 3);
    assert_eq!(s.pending_jobs, 2);
    assert_eq!(s.running_jobs, 1);
    assert_eq!(s.pools.len(), 2);
    assert_eq!(s.pools[0].agent_pool_id, "pool-a");
    assert_eq!(s.pools[0].total_capacity, 2);
    assert_eq!(s.pools[0].total_load, 1);
    assert_eq!(s.pools[0].pending_jobs, 2);
    assert_eq!(s.pools[1].agent_pool_id, "pool-b");
    assert_eq!(s.pools[1].pending_jobs, 0);
    assert_eq!(s.agents[1].agent_id, "a2");
    assert!(s.agents[1].stale);
    assert_eq!(s.in_flight_detail[0].agent_id.as_deref(), Some("a1"));
    assert!(s.in_flight_detail[1].agent_id.is_none());
}

#[test]
fn equally_long_episodes_keep_their_order() {
    let dto = |id: &str, secs: u64| EpisodeDto { episode_id: id.to_string(), attempt_id: 1, batch_id: String::new(), elapsed_secs: secs };
    let sorted = sort_longest_first(vec![dto("a", 5), dto("b", 9), dto("c", 5), dto("d", 9), dto("e", 1)]);
    let ids: Vec<&str> = sorted.iter().map(|e| e.episode_id.as_str()).collect();
    assert_eq!(ids, vec!["b", "d", "a", "c", "e"]);
}
