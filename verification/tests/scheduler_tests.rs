use uenv_server::clock::clock_ms;
use uenv_server::messages::{EpisodeRequest, ResourceSpec};
use uenv_server::scheduler::{RoundRobinScheduler, ScheduleError, Scheduler, WorkerInfo};

fn worker(id: &str, endpoint: &str, reserved_load: u32, draining: bool) -> WorkerInfo {
    let now = clock_ms();
    WorkerInfo {
        worker_id: id.to_string(),
        endpoint: endpoint.to_string(),
        supported_env_types: vec!["math".to_string()],
        capacity: 2,
        current_load: reserved_load,
        reserved_load,
        reported_load: 0,
        resource: None,
        draining,
        last_report_at: Some(now),
        last_heartbeat_at: Some(now),
        gateway_public_url: String::new(),
        synced_env_packages: Vec::new(),
    }
}

fn request() -> EpisodeRequest {
    let mut r = EpisodeRequest::default();
    r.env_type = "math".to_string();
    r
}

#[test]
fn reregister_with_active_lease_is_rejected() {
    let mut scheduler = RoundRobinScheduler::new(60, 60);
    let first = scheduler.register_worker(worker("w1", "old:1", 1, false));
    assert!(first.accepted);
    assert_eq!(first.old_capacity, 0);
    assert_eq!(first.new_capacity, 2);
    let second = scheduler.register_worker(worker("w1", "new:1", 0, false));
    assert!(!second.accepted);
    assert_eq!(second.old_capacity, 2);
    assert_eq!(second.new_capacity, 2);
    let workers = scheduler.list_workers();
    assert_eq!(workers.len(), 1);
    assert_eq!(workers[0].endpoint, "old:1");
    assert!(workers[0].draining);
    assert_eq!(workers[0].reserved_load, 1);
}

#[test]
fn schedule_and_reserve_share_env_package_filtering() {
    let mut scheduler = RoundRobinScheduler::new(60, 60);
    scheduler.register_worker(worker("w1", "worker:1", 0, false));
    let mut req = request();
    req.env_package_id = "pkg-a".to_string();
    req.env_package_version = "v1".to_string();

    assert!(matches!(scheduler.schedule(&req), Err(ScheduleError::NoMatchingEnvPackage)));
    assert!(matches!(scheduler.reserve(&req), Err(ScheduleError::NoMatchingEnvPackage)));
}

#[test]
fn schedule_and_reserve_share_resource_filtering() {
    let mut scheduler = RoundRobinScheduler::new(60, 60);
    let mut w = worker("w1", "worker:1", 0, false);
    w.resource = Some(ResourceSpec { cpu_cores: 1, memory_mb: 512, gpu_count: 0, gpu_type: String::new() });
    scheduler.register_worker(w);
    let mut req = request();
    req.resource_spec = Some(ResourceSpec { cpu_cores: 1, memory_mb: 512, gpu_count: 1, gpu_type: String::new() });

    assert!(matches!(scheduler.schedule(&req), Err(ScheduleError::AllWorkersAtCapacity)));
    assert!(matches!(scheduler.reserve(&req), Err(ScheduleError::AllWorkersAtCapacity)));
}

#[test]
fn round_robin_alternates_between_free_workers() {
    let mut scheduler = RoundRobinScheduler::new(60, 60);
    scheduler.register_worker(worker("w1", "a:1", 0, false));
    scheduler.register_worker(worker("w2", "b:1", 0, false));
    let first = scheduler.schedule(&request()).expect("first");
    let second = scheduler.schedule(&request()).expect("second");
    assert_ne!(first.worker_id, second.worker_id);
}

#[test]
fn reserve_then_release_restores_load() {
    let mut scheduler = RoundRobinScheduler::new(60, 60);
    scheduler.register_worker(worker("w1", "a:1", 0, false));
    let a = scheduler.reserve(&request()).expect("reserve");
    assert_eq!(a.worker_id, "w1");
    assert_eq!(scheduler.list_workers()[0].reserved_load, 1);
    scheduler.release("w1");
    assert_eq!(scheduler.list_workers()[0].reserved_load, 0);
}

#[test]
fn reserve_stops_at_capacity() {
    let mut scheduler = RoundRobinScheduler::new(60, 60);
    scheduler.register_worker(worker("w1", "a:1", 0, false));
    assert!(scheduler.reserve(&request()).is_ok());
    assert!(scheduler.reserve(&request()).is_ok());
    assert!(matches!(scheduler.reserve(&request()), Err(ScheduleError::AllWorkersAtCapacity)));
}

#[test]
fn unsupported_env_type_and_empty_pool_errors() {
    let mut scheduler = RoundRobinScheduler::new(60, 60);
    assert!(matches!(scheduler.schedule(&request()), Err(ScheduleError::NoWorkerAvailable)));
    scheduler.register_worker(worker("w1", "a:1", 0, false));
    let mut req = request();
    req.env_type = "code".to_string();
    assert!(matches!(scheduler.schedule(&req), Err(ScheduleError::NoMatchingEnvType)));
}

#[test]
fn draining_worker_is_removed_when_its_last_lease_ends() {
    let mut scheduler = RoundRobinScheduler::new(60, 60);
    scheduler.register_worker(worker("w1", "a:1", 0, false));
    scheduler.reserve(&request()).expect("reserve");
    scheduler.set_worker_draining("w1");
    assert_eq!(scheduler.worker_count(), 1);
    scheduler.release("w1");
    assert_eq!(scheduler.worker_count(), 0);
}

#[test]
fn decrement_undoes_increment_unless_draining_and_idle() {
    let mut scheduler = RoundRobinScheduler::new(60, 60);
    scheduler.register_worker(worker("w1", "worker:1", 1, false));
    scheduler.increment_load("w1");
    assert_eq!(scheduler.list_workers()[0].reserved_load, 2);
    scheduler.decrement_load("w1");
    let workers = scheduler.list_workers();
    assert_eq!(workers.len(), 1);
    assert_eq!(workers[0].reserved_load, 1);
    assert_eq!(workers[0].current_load, 1);

    let mut idle = RoundRobinScheduler::new(60, 60);
    idle.register_worker(worker("w2", "worker:2", 0, false));
    idle.set_worker_draining("w2");
    idle.increment_load("w2");
    idle.decrement_load("w2");
    assert_eq!(idle.worker_count(), 0);
}
