use uenv_server::persistence::{IdempotencyDecision, IdempotencyRecord, TerminalOutcome};
use uenv_server::report_gate::{
    absent_pending_reply, accepted_reply, check_lease_owner, check_report_shape, idempotency_reply, needs_dispatch_recovery,
};
use uenv_server::state::{IdempotencyRecord as RememberedAnswer, TimedOutcome};

#[test]
fn report_shape_checks_in_order() {
    let token = b"token-1".to_vec();
    let r = check_report_shape("", false, None, true, "lease-1", &token).expect("reply");
    assert_eq!((r.ack, r.code.as_str(), r.message.as_str()), (false, "INVALID_REQUEST", "empty idempotency_key"));
    let remembered = RememberedAnswer {
        expires_at_ms: 10,
        episode_id: "ep1".to_string(),
        attempt_id: 1,
        dispatch_lease_id: "lease-1".to_string(),
        ack: true,
        code: "ACCEPTED".to_string(),
        message: "accepted".to_string(),
    };
    let r = check_report_shape("key-1", false, Some(&remembered), true, "lease-1", &token).expect("reply");
    assert_eq!((r.ack, r.duplicate, r.code.as_str()), (true, true, "DUPLICATE_ACCEPTED"));
    assert!(check_report_shape("key-1", true, Some(&remembered), true, "lease-1", &token).is_none());
    let r = check_report_shape("key-1", true, None, false, "lease-1", &token).expect("reply");
    assert_eq!(r.message, "missing result");
    let r = check_report_shape("key-1", true, None, true, "", &token).expect("reply");
    assert_eq!(r.message, "missing dispatch lease or token");
}

#[test]
fn lease_owner_checks() {
    let token = b"token-1".to_vec();
    let r = check_lease_owner("w1", &token, "w2", &token).expect("reply");
    assert_eq!(r.code, "WORKER_MISMATCH");
    let r = check_lease_owner("w1", &token, "w1", &b"not-the-token".to_vec()).expect("reply");
    assert_eq!(r.code, "TOKEN_MISMATCH");
    assert!(check_lease_owner("w1", &token, "w1", &token).is_none());
}

#[test]
fn answers_without_a_waiting_attempt() {
    let accepted = TerminalOutcome { code: "ACCEPTED".to_string(), message: "accepted".to_string() };
    let r = absent_pending_reply(Some(&accepted), None, false);
    assert_eq!((r.duplicate, r.code.as_str()), (true, "ALREADY_COMPLETED"));
    let late = TimedOutcome { expires_at_ms: 0, code: "LATE_AFTER_TIMEOUT".to_string(), message: "episode execution timeout".to_string() };
    let r = absent_pending_reply(None, Some(&late), false);
    assert_eq!((r.code.as_str(), r.message.as_str()), ("LATE_AFTER_TIMEOUT", "episode execution timeout"));
    let r = absent_pending_reply(None, None, true);
    assert_eq!((r.code.as_str(), r.message.as_str()), ("LATE_AFTER_CANCEL", "episode was cancelled"));
    let r = absent_pending_reply(None, None, false);
    assert_eq!(r.code, "UNKNOWN_PENDING");
    let r = accepted_reply();
    assert!(r.ack);
    assert_eq!(r.code, "ACCEPTED");
}

#[test]
fn idempotency_replies_and_epochs() {
    let rec = IdempotencyRecord {
        idempotency_key: "key-1".to_string(),
        episode_id: "ep1".to_string(),
        attempt_id: 1,
        dispatch_lease_id: "lease-1".to_string(),
        worker_id: "w1".to_string(),
        server_epoch: 1,
        result_checksum: "c".to_string(),
        ack: true,
        code: "ACCEPTED".to_string(),
        message: "accepted".to_string(),
        expires_at_ms: 0,
    };
    let r = idempotency_reply(&IdempotencyDecision::Replay(rec.clone())).expect("reply");
    assert_eq!((r.ack, r.duplicate, r.code.as_str()), (true, true, "DUPLICATE_ACCEPTED"));
    let r = idempotency_reply(&IdempotencyDecision::Conflict(rec)).expect("reply");
    assert_eq!(r.code, "IDEMPOTENCY_CONFLICT");
    assert!(idempotency_reply(&IdempotencyDecision::Missing).is_none());
    assert!(!needs_dispatch_recovery(0, 5));
    assert!(!needs_dispatch_recovery(5, 5));
    assert!(needs_dispatch_recovery(4, 5));
}
