use uenv_server::agent_job::{CompleteCheck, InFlightJob};
use uenv_server::completion_flow::{CompletionAction, CompletionEvent, CompletionFlow, CompletionStage};
use uenv_server::persistence::{IdempotencyDecision, IdempotencyRecord};

fn job() -> InFlightJob {
    InFlightJob { agent_id: "agent-1".into(), run_id: "run-1".into(), episode_id: "ep-1".into(), session_id: "s-1".into() }
}

fn record() -> IdempotencyRecord {
    IdempotencyRecord {
        idempotency_key: "agent-job:job-1".into(),
        episode_id: "ep-1".into(),
        attempt_id: 1,
        dispatch_lease_id: "run-1".into(),
        worker_id: "agent-1".into(),
        server_epoch: 0,
        result_checksum: "c".into(),
        ack: true,
        code: "ACCEPTED".into(),
        message: String::new(),
        expires_at_ms: i64::MAX,
    }
}

fn answer(a: &CompletionAction) -> (bool, String, String) {
    match a {
        CompletionAction::Answer { ack, code, message } => (*ack, code.clone(), message.clone()),
        other => panic!("expected an answer, got {other:?}"),
    }
}

#[test]
fn in_memory_completion_finishes_and_is_accepted() {
    let (mut flow, a) = CompletionFlow::start(&CompleteCheck::Accept(job()), false);
    assert!(matches!(a, CompletionAction::Finish));
    assert!(flow.matched);
    let a = flow.step(CompletionEvent::Finished(true));
    assert_eq!(answer(&a), (true, "ACCEPTED".into(), String::new()));
    assert_eq!(flow.stage, CompletionStage::Done);
}

#[test]
fn durable_completion_loads_request_commits_and_finishes() {
    let (mut flow, a) = CompletionFlow::start(&CompleteCheck::Accept(job()), true);
    assert!(matches!(a, CompletionAction::LoadRequest));
    assert!(matches!(flow.step(CompletionEvent::Request(true)), CompletionAction::Commit));
    assert!(matches!(flow.step(CompletionEvent::Committed(IdempotencyDecision::Replay(record()))), CompletionAction::Finish));
    let a = flow.step(CompletionEvent::Finished(false));
    assert_eq!(answer(&a), (false, "UNKNOWN_JOB".into(), "unknown job".into()));
}

#[test]
fn refused_and_conflicting_completions() {
    let (_, a) = CompletionFlow::start(&CompleteCheck::RunMismatch, true);
    assert_eq!(answer(&a).1, "RUN_MISMATCH");
    let (_, a) = CompletionFlow::start(&CompleteCheck::AgentMismatch, false);
    assert_eq!(answer(&a), (false, "AGENT_MISMATCH".into(), "agent_id or run_id mismatch".into()));
    let (mut flow, _) = CompletionFlow::start(&CompleteCheck::Accept(job()), true);
    flow.step(CompletionEvent::Request(true));
    let a = flow.step(CompletionEvent::Committed(IdempotencyDecision::Conflict(record())));
    assert_eq!(answer(&a).1, "COMPLETION_CONFLICT");
    let (mut flow, _) = CompletionFlow::start(&CompleteCheck::Accept(job()), true);
    flow.step(CompletionEvent::Request(true));
    let a = flow.step(CompletionEvent::Committed(IdempotencyDecision::Missing));
    assert_eq!(answer(&a), (false, "UNKNOWN_JOB".into(), "persisted job missing".into()));
    let (mut flow, _) = CompletionFlow::start(&CompleteCheck::Accept(job()), true);
    assert!(matches!(flow.step(CompletionEvent::Request(false)), CompletionAction::RequestMissing));
}

#[test]
fn unknown_job_is_a_duplicate_when_the_store_replays_it() {
    let (_, a) = CompletionFlow::start(&CompleteCheck::UnknownJob, false);
    assert_eq!(answer(&a), (false, "UNKNOWN_JOB".into(), "unknown job".into()));
    let (mut flow, a) = CompletionFlow::start(&CompleteCheck::UnknownJob, true);
    assert!(matches!(a, CompletionAction::CheckStored));
    assert!(!flow.matched);
    let a = flow.step(CompletionEvent::Stored(IdempotencyDecision::Replay(record())));
    assert_eq!(answer(&a), (true, "DUPLICATE_ACCEPTED".into(), String::new()));
    let (mut flow, _) = CompletionFlow::start(&CompleteCheck::UnknownJob, true);
    let a = flow.step(CompletionEvent::Stored(IdempotencyDecision::Missing));
    assert_eq!(answer(&a).1, "UNKNOWN_JOB");
    let (mut flow, _) = CompletionFlow::start(&CompleteCheck::UnknownJob, true);
    assert!(matches!(flow.step(CompletionEvent::StoreFailed), CompletionAction::Unavailable));
}
