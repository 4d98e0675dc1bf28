use uenv_server::admin_actions::{cancel_plan, cancels_waiting_result, drained_capacity, ActiveHandle};
use uenv_server::scheduler::WorkerSnapshot;
use uenv_server::state::{AgentJobRef, NativeDispatchInfo};

fn native() -> NativeDispatchInfo {
    NativeDispatchInfo {
        endpoint: "127.0.0.1:50052".into(),
        episode_id: "ep-1".into(),
        attempt_id: 2,
        dispatch_lease_id: "lease-1".into(),
        dispatch_token: b"token".to_vec(),
    }
}

fn worker(id: &str, capacity: u32) -> WorkerSnapshot {
    WorkerSnapshot {
        worker_id: id.into(),
        endpoint: String::new(),
        supported_env_types: Vec::new(),
        capacity,
        current_load: 0,
        reserved_load: 0,
        reported_load: 0,
        draining: false,
        last_report_at: None,
        last_heartbeat_at: None,
        degraded: false,
        gateway_public_url: String::new(),
        synced_env_packages: Vec::new(),
    }
}

#[test]
fn cancel_without_active_episode_cancels_nothing() {
    let p = cancel_plan(0, None);
    assert!(!p.cancel_active);
    assert!(p.notify.is_none() && p.abandon.is_none());
    assert_eq!(p.worker_cancel.code, "NOT_DISPATCHED");
    assert!(!p.worker_cancel.attempted);
}

#[test]
fn cancel_of_native_attempt_notifies_its_worker() {
    let h = ActiveHandle { attempt_id: 2, native_dispatch: Some(native()), agent_job: None };
    let p = cancel_plan(0, Some(h));
    assert!(p.cancel_active);
    assert_eq!(p.notify.unwrap().dispatch_lease_id, "lease-1");
    assert!(p.abandon.is_none());
}

#[test]
fn cancel_of_agent_job_abandons_it() {
    let h = ActiveHandle {
        attempt_id: 1,
        native_dispatch: None,
        agent_job: Some(AgentJobRef { pool_id: "pool-a".into(), job_id: "job-1".into() }),
    };
    let p = cancel_plan(1, Some(h));
    assert!(p.cancel_active);
    assert_eq!(p.abandon.unwrap().job_id, "job-1");
    assert_eq!(p.worker_cancel.code, "NOT_NATIVE_WORKER");
    assert_eq!(
        p.worker_cancel.message,
        "episode is handled by an agent job; native worker cancel RPC is not applicable"
    );
}

#[test]
fn cancel_of_another_attempt_is_refused() {
    let h = ActiveHandle { attempt_id: 3, native_dispatch: Some(native()), agent_job: None };
    let p = cancel_plan(2, Some(h));
    assert!(!p.cancel_active);
    assert!(p.notify.is_none());
    assert_eq!(p.worker_cancel.code, "ATTEMPT_MISMATCH");
    assert_eq!(p.worker_cancel.message, "active attempt is 3, requested attempt is 2");
}

#[test]
fn cancel_drops_waiting_results_of_the_episode() {
    assert!(cancels_waiting_result("ep-1", 2, "ep-1", 0));
    assert!(cancels_waiting_result("ep-1", 2, "ep-1", 2));
    assert!(!cancels_waiting_result("ep-1", 2, "ep-1", 3));
    assert!(!cancels_waiting_result("ep-2", 2, "ep-1", 0));
}

#[test]
fn drain_takes_the_first_listed_capacity_from_dynamic_admission() {
    let ws = vec![worker("w-1", 4), worker("w-2", 2), worker("w-2", 7)];
    assert_eq!(drained_capacity(true, &ws, "w-2"), 2);
    assert_eq!(drained_capacity(true, &ws, "w-9"), 0);
    assert_eq!(drained_capacity(false, &ws, "w-1"), 0);
}
