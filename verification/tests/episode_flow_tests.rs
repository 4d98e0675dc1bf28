use uenv_server::admission::AdmissionAcquireError;
use uenv_server::episode_flow::{
    active_check, effective_timeout_secs, failed_submission_result, lease_remaining_secs, native_step, pickup_timeout_secs,
    queue_admission_step, swe_acquire_step, swe_pool_step, swe_run_and_job_ids, swe_session_step, swe_wait_step, EpisodeServiceError,
    NativeAction, NativeEvent, SessionOutcome, SubmitStep, SweAcquireAction, SweAcquireEvent, SweWaitAction, SweWaitEvent,
};
use uenv_server::ids::{normalize_episode_request, stamp_dispatch};
use uenv_server::messages::EpisodeRequest;
use uenv_server::scheduler::ScheduleError;
use uenv_server::agent_pool::AgentSelectError;

#[test]
fn timeouts_and_leases() {
    assert_eq!(effective_timeout_secs(0, 300), 300);
    assert_eq!(effective_timeout_secs(20, 300), 20);
    assert_eq!(pickup_timeout_secs(0), 1);
    assert_eq!(pickup_timeout_secs(30), 30);
    assert_eq!(lease_remaining_secs(10_000, 2_500), 7);
    assert_eq!(lease_remaining_secs(1_000, 2_500), 1);
}

#[test]
fn queue_admission_outcomes() {
    assert!(matches!(queue_admission_step("ep", Ok(())), SubmitStep::Proceed));
    assert!(matches!(queue_admission_step("ep", Err(AdmissionAcquireError::Cancelled)), SubmitStep::ReturnCancelled));
    match queue_admission_step("ep-1", Err(AdmissionAcquireError::TimedOut)) {
        SubmitStep::ReturnTimeout(m) => assert_eq!(m, "episode ep-1 timeout waiting in queue"),
        other => panic!("unexpected {other:?}"),
    }
    match queue_admission_step("ep-1", Err(AdmissionAcquireError::Closed)) {
        SubmitStep::Fail(m) => assert_eq!(m, "episode queue semaphore closed"),
        other => panic!("unexpected {other:?}"),
    }
    assert_eq!(active_check("ep-1", true).unwrap_err(), "episode ep-1 is already active");
    assert!(active_check("ep-1", false).is_ok());
}

#[test]
fn native_attempts_fail_past_the_limit() {
    let (n, a) = native_step("ep-1", 4, 3, &NativeEvent::AttemptStart);
    assert_eq!(n, 4);
    match a {
        NativeAction::Fail(m) => assert_eq!(m, "episode ep-1 exceeded max attempts (3)"),
        other => panic!("unexpected {other:?}"),
    }
    assert!(matches!(native_step("ep-1", 3, 3, &NativeEvent::AttemptStart).1, NativeAction::Reserve));
}

#[test]
fn native_reserve_failures() {
    let ev = NativeEvent::ReserveFailed { error: ScheduleError::NoMatchingEnvType, deadline_passed: false };
    match native_step("ep", 1, 3, &ev).1 {
        NativeAction::Fail(m) => assert_eq!(m, "select worker failed: no worker supports env type"),
        other => panic!("unexpected {other:?}"),
    }
    let ev = NativeEvent::ReserveFailed { error: ScheduleError::AllWorkersAtCapacity, deadline_passed: true };
    match native_step("ep", 1, 3, &ev).1 {
        NativeAction::Fail(m) => assert_eq!(m, "no worker available: all workers at capacity"),
        other => panic!("unexpected {other:?}"),
    }
    let ev = NativeEvent::ReserveFailed { error: ScheduleError::NoWorkerAvailable, deadline_passed: false };
    assert!(matches!(native_step("ep", 1, 3, &ev).1, NativeAction::WaitThenReserve));
}

#[test]
fn native_retries_after_failed_attempts() {
    let ev = NativeEvent::DispatchFailed { error: "connection refused".to_string() };
    let (n, a) = native_step("ep", 1, 3, &ev);
    assert_eq!(n, 2);
    assert!(matches!(a, NativeAction::Restart));
    let ev = NativeEvent::DispatchFailed { error: "max_concurrency_acquire_timeout".to_string() };
    let (n, a) = native_step("ep", 1, 3, &ev);
    assert_eq!(n, 1);
    assert!(matches!(a, NativeAction::WaitThenRestart));
    let (n, a) = native_step("ep", 1, 3, &NativeEvent::ResultChannelClosed { cancelled: false });
    assert_eq!(n, 2);
    assert!(matches!(a, NativeAction::Restart));
    assert!(matches!(native_step("ep", 1, 3, &NativeEvent::ResultChannelClosed { cancelled: true }).1, NativeAction::ReturnCancelled));
    assert!(matches!(native_step("ep", 1, 3, &NativeEvent::ResultDelivered).1, NativeAction::Publish));
    assert!(matches!(native_step("ep", 1, 3, &NativeEvent::DeadlineReached).1, NativeAction::ReturnTimeout));
}

#[test]
fn swe_acquisition_steps() {
    assert_eq!(swe_run_and_job_ids("ep-9"), ("run-ep-9".to_string(), "job-ep-9".to_string()));
    assert!(matches!(
        swe_acquire_step("ep", &SweAcquireEvent::RoundStart { cancelled: true, deadline_passed: true }),
        SweAcquireAction::ReturnCancelled
    ));
    match swe_acquire_step("ep", &SweAcquireEvent::RoundStart { cancelled: false, deadline_passed: true }) {
        SweAcquireAction::ReturnTimeout(m) => assert_eq!(m, "swe agent episode ep timeout acquiring agent+worker slot"),
        other => panic!("unexpected {other:?}"),
    }
    match swe_acquire_step("ep", &SweAcquireEvent::Reserved { worker_id: "w1".to_string(), has_gateway_url: false }) {
        SweAcquireAction::Fail(m) => assert_eq!(m, "worker w1 has no gateway_public_url; cannot orchestrate agent job"),
        other => panic!("unexpected {other:?}"),
    }
    assert!(matches!(swe_acquire_step("ep", &SweAcquireEvent::PermitUnavailable), SweAcquireAction::WaitThenRetry));
}

#[test]
fn swe_session_and_wait_steps() {
    match swe_session_step("w1", &SessionOutcome::Failed("boom".to_string())) {
        SubmitStep::Fail(m) => assert_eq!(m, "for-episode failed on worker w1: boom"),
        other => panic!("unexpected {other:?}"),
    }
    match swe_session_step("w1", &SessionOutcome::TimedOut) {
        SubmitStep::ReturnTimeout(m) => assert_eq!(m, "for-episode timeout on worker w1"),
        other => panic!("unexpected {other:?}"),
    }
    match swe_wait_step("ep", &SweWaitEvent::Completed { status: String::new() }) {
        SweWaitAction::Complete(s) => assert_eq!(s, "completed"),
        other => panic!("unexpected {other:?}"),
    }
    match swe_wait_step("ep", &SweWaitEvent::PickupDeadline { still_pending: true }) {
        SweWaitAction::ReturnTimeout(m) => assert_eq!(m, "swe agent episode ep timeout waiting for agent pickup"),
        other => panic!("unexpected {other:?}"),
    }
    assert!(matches!(swe_wait_step("ep", &SweWaitEvent::PickupDeadline { still_pending: false }), SweWaitAction::KeepWaiting));
}

#[test]
fn batch_failures_become_failed_results() {
    let e = EpisodeServiceError::Failed("boom".to_string());
    assert_eq!(e.message(), "boom");
    let r = failed_submission_result("ep".to_string(), e.message().to_string());
    assert_eq!(r.status, "failed");
    assert_eq!(r.error_message, "boom");
    assert_eq!(r.episode_id, "ep");
}

#[test]
fn normalize_fills_id_and_attempt() {
    let mut req = EpisodeRequest::default();
    normalize_episode_request(&mut req);
    assert_eq!(req.episode_id.len(), 36);
    assert_eq!(req.attempt_id, 1);
    let mut req = EpisodeRequest::default();
    req.episode_id = "keep".to_string();
    req.attempt_id = 4;
    normalize_episode_request(&mut req);
    assert_eq!(req.episode_id, "keep");
    assert_eq!(req.attempt_id, 4);
}

#[test]
fn dispatch_stamp_sets_lease_token_and_epoch_only() {
    let mut req = EpisodeRequest::default();
    req.episode_id = "ep-1".to_string();
    req.attempt_id = 2;
    stamp_dispatch(&mut req, "lease-7".to_string(), 3, 1_700_000_060);
    assert_eq!(req.dispatch_lease_id, "lease-7");
    assert_eq!(req.dispatch_token.len(), 16);
    assert_eq!(req.scheduler_epoch, 3);
    assert_eq!(req.lease_expire_at.map(|t| (t.seconds, t.nanos)), Some((1_700_000_060, 0)));
    assert_eq!(req.episode_id, "ep-1");
    assert_eq!(req.attempt_id, 2);
    let first = req.dispatch_token.clone();
    stamp_dispatch(&mut req, "lease-8".to_string(), 3, 1_700_000_060);
    assert_ne!(req.dispatch_token, first);
}

#[test]
fn swe_pool_resolution_failure_ends_the_submission() {
    assert!(matches!(swe_pool_step(&Ok("pool-a".to_string())), SubmitStep::Proceed));
    match swe_pool_step(&Err(AgentSelectError::NoMatchingBridge)) {
        SubmitStep::Fail(m) => assert_eq!(m, "select agent failed: no agent has synced the requested agent_bridge"),
        other => panic!("unexpected {other:?}"),
    }
}
