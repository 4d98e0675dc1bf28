use uenv_server::persistence::{DispatchRecord, IdempotencyDecision, TerminalOutcome};
use uenv_server::report_flow::{ReportAction, ReportEvent, ReportFlow, ReportInput, ReportStage};
use uenv_server::state::{IdempotencyRecord, TimedOutcome};

fn input(epoch: u64) -> ReportInput {
    ReportInput {
        worker_id: "worker-1".into(),
        server_epoch: epoch,
        idempotency_key: "idem-1".into(),
        result_identity: Some(("ep-1".into(), 1)),
        dispatch_lease_id: "lease-1".into(),
        dispatch_token: b"token".to_vec(),
    }
}

fn dispatch(worker: &str, episode: &str, epoch: u64) -> DispatchRecord {
    DispatchRecord {
        episode_id: episode.into(),
        attempt_id: 1,
        dispatch_lease_id: "lease-1".into(),
        worker_id: worker.into(),
        worker_endpoint: "127.0.0.1:50052".into(),
        dispatch_token: b"token".to_vec(),
        server_epoch: epoch,
        phase: "DISPATCHED".into(),
        dispatch_at_ms: 0,
        accepted_at_ms: None,
        deadline_at_ms: 0,
    }
}

fn answer(a: &ReportAction) -> (bool, bool, String, String, bool) {
    match a {
        ReportAction::Answer { reply, remember } => {
            (reply.ack, reply.duplicate, reply.code.clone(), reply.message.clone(), *remember)
        }
        other => panic!("expected an answer, got {other:?}"),
    }
}

#[test]
fn accepted_in_memory_report_goes_inspect_take_accept() {
    let inp = input(5);
    let (mut flow, a) = ReportFlow::start(&inp, 5, false, None);
    assert!(matches!(a, ReportAction::InspectPending));
    let a = flow.step(&inp, ReportEvent::Pending(Some(("worker-1".into(), b"token".to_vec()))));
    assert!(matches!(a, ReportAction::TakePending));
    let a = flow.step(&inp, ReportEvent::Taken(true));
    match a {
        ReportAction::Accept { reply } => {
            assert!(reply.ack);
            assert_eq!(reply.code, "ACCEPTED");
        }
        other => panic!("unexpected {other:?}"),
    }
    assert_eq!(flow.stage, ReportStage::Done);
}

#[test]
fn durable_report_checks_key_then_commits() {
    let inp = input(0);
    let (mut flow, a) = ReportFlow::start(&inp, 5, true, None);
    assert!(matches!(a, ReportAction::CheckIdempotency));
    assert!(matches!(flow.step(&inp, ReportEvent::Idempotency(IdempotencyDecision::Missing)), ReportAction::InspectPending));
    assert!(matches!(
        flow.step(&inp, ReportEvent::Pending(Some(("worker-1".into(), b"token".to_vec())))),
        ReportAction::TakePending
    ));
    assert!(matches!(flow.step(&inp, ReportEvent::Taken(true)), ReportAction::Commit));
    match flow.step(&inp, ReportEvent::StoreFailed) {
        ReportAction::Restore { reply } => {
            assert!(!reply.ack);
            assert_eq!(reply.code, "PERSISTENCE_FAILED");
        }
        other => panic!("unexpected {other:?}"),
    }
}

#[test]
fn stale_epoch_without_store_is_refused() {
    let inp = input(4);
    let (_, a) = ReportFlow::start(&inp, 5, false, None);
    assert_eq!(answer(&a), (false, false, "STALE_EPOCH".into(), "server epoch mismatch".into(), false));
}

#[test]
fn old_epoch_report_is_let_through_by_its_stored_dispatch() {
    let inp = input(4);
    let (mut flow, a) = ReportFlow::start(&inp, 5, true, None);
    assert!(matches!(a, ReportAction::LoadDispatch));
    let a = flow.step(&inp, ReportEvent::DispatchFound(Some(dispatch("worker-1", "ep-1", 4))));
    assert!(matches!(a, ReportAction::CheckIdempotency));

    let (mut other, _) = ReportFlow::start(&inp, 5, true, None);
    let a = other.step(&inp, ReportEvent::DispatchFound(Some(dispatch("worker-2", "ep-1", 4))));
    assert_eq!(answer(&a).2, "STALE_EPOCH");

    let (mut wrong, _) = ReportFlow::start(&inp, 5, true, None);
    let a = wrong.step(&inp, ReportEvent::DispatchFound(Some(dispatch("worker-1", "ep-9", 4))));
    assert_eq!(answer(&a).2, "DISPATCH_MISMATCH");

    let (mut failing, _) = ReportFlow::start(&inp, 5, true, None);
    assert!(matches!(failing.step(&inp, ReportEvent::StoreFailed), ReportAction::Unavailable));
}

#[test]
fn report_shape_is_checked_in_order() {
    let mut inp = input(0);
    inp.idempotency_key = String::new();
    let (_, a) = ReportFlow::start(&inp, 5, false, None);
    assert_eq!(answer(&a).3, "empty idempotency_key");

    let inp = input(0);
    let remembered = IdempotencyRecord {
        expires_at_ms: 0,
        episode_id: "ep-1".into(),
        attempt_id: 1,
        dispatch_lease_id: "lease-1".into(),
        ack: false,
        code: "TOKEN_MISMATCH".into(),
        message: "dispatch token mismatch".into(),
    };
    let (_, a) = ReportFlow::start(&inp, 5, false, Some(&remembered));
    assert_eq!(answer(&a), (false, true, "DUPLICATE_REJECTED".into(), "dispatch token mismatch".into(), false));
    let (_, a) = ReportFlow::start(&inp, 5, true, Some(&remembered));
    assert!(matches!(a, ReportAction::CheckIdempotency));

    let mut inp = input(0);
    inp.result_identity = None;
    let (_, a) = ReportFlow::start(&inp, 5, false, None);
    assert_eq!(answer(&a).3, "missing result");

    let mut inp = input(0);
    inp.dispatch_token = Vec::new();
    let (_, a) = ReportFlow::start(&inp, 5, false, None);
    assert_eq!(answer(&a).3, "missing dispatch lease or token");
}

#[test]
fn wrong_owner_and_token_are_refused_and_remembered() {
    let inp = input(0);
    let (mut flow, _) = ReportFlow::start(&inp, 5, false, None);
    let a = flow.step(&inp, ReportEvent::Pending(Some(("worker-2".into(), b"token".to_vec()))));
    assert_eq!(answer(&a), (false, false, "WORKER_MISMATCH".into(), "worker_id does not own this dispatch lease".into(), true));
    let (mut flow, _) = ReportFlow::start(&inp, 5, false, None);
    let a = flow.step(&inp, ReportEvent::Pending(Some(("worker-1".into(), b"other".to_vec()))));
    assert_eq!(answer(&a), (false, false, "TOKEN_MISMATCH".into(), "dispatch token mismatch".into(), true));
}

#[test]
fn idempotency_replay_and_conflict_answer_as_duplicates() {
    let inp = input(0);
    let record = uenv_server::persistence::IdempotencyRecord {
        idempotency_key: "idem-1".into(),
        episode_id: "ep-1".into(),
        attempt_id: 1,
        dispatch_lease_id: "lease-1".into(),
        worker_id: "worker-1".into(),
        server_epoch: 0,
        result_checksum: "c".into(),
        ack: true,
        code: "ACCEPTED".into(),
        message: "accepted".into(),
        expires_at_ms: 0,
    };
    let (mut flow, _) = ReportFlow::start(&inp, 5, true, None);
    let a = flow.step(&inp, ReportEvent::Idempotency(IdempotencyDecision::Replay(record.clone())));
    assert_eq!(answer(&a), (true, true, "DUPLICATE_ACCEPTED".into(), "accepted".into(), false));
    let (mut flow, _) = ReportFlow::start(&inp, 5, true, None);
    let a = flow.step(&inp, ReportEvent::Idempotency(IdempotencyDecision::Conflict(record)));
    assert_eq!(answer(&a).2, "IDEMPOTENCY_CONFLICT");
    assert!(answer(&a).1);
}

#[test]
fn absent_attempt_answers_from_store_then_memory() {
    let inp = input(0);
    let (mut flow, _) = ReportFlow::start(&inp, 5, true, None);
    flow.step(&inp, ReportEvent::Idempotency(IdempotencyDecision::Missing));
    assert!(matches!(flow.step(&inp, ReportEvent::Pending(None)), ReportAction::LoadTerminal));
    let a = flow.step(
        &inp,
        ReportEvent::Terminal(Some(TerminalOutcome { code: "ACCEPTED".into(), message: "accepted".into() })),
    );
    assert_eq!(answer(&a), (false, true, "ALREADY_COMPLETED".into(), "accepted".into(), true));

    let (mut flow, _) = ReportFlow::start(&inp, 5, false, None);
    flow.step(&inp, ReportEvent::Pending(Some(("worker-1".into(), b"token".to_vec()))));
    assert!(matches!(flow.step(&inp, ReportEvent::Taken(false)), ReportAction::LookupOutcome));
    let a = flow.step(&inp, ReportEvent::Outcome { remembered: None, cancelled: true });
    assert_eq!(answer(&a), (false, false, "LATE_AFTER_CANCEL".into(), "episode was cancelled".into(), true));

    let (mut flow, _) = ReportFlow::start(&inp, 5, false, None);
    flow.step(&inp, ReportEvent::Pending(None));
    let remembered = TimedOutcome { expires_at_ms: 0, code: "ACCEPTED".into(), message: String::new() };
    let a = flow.step(&inp, ReportEvent::Outcome { remembered: Some(remembered), cancelled: false });
    assert_eq!(answer(&a).2, "ALREADY_COMPLETED");

    let (mut flow, _) = ReportFlow::start(&inp, 5, false, None);
    flow.step(&inp, ReportEvent::Pending(None));
    let a = flow.step(&inp, ReportEvent::Outcome { remembered: None, cancelled: false });
    assert_eq!(answer(&a).2, "UNKNOWN_PENDING");
}
