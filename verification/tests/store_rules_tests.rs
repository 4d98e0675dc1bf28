use uenv_server::messages::{AgentJobCompleteRequest, EpisodeResult};
use uenv_server::persistence::IdempotencyDecision;
use uenv_server::store_rules::{
    completion_decision, outcome_key, result_outbox_event_id, terminal_outcome_code, terminal_phase, AgentJobRow,
    CompletionDecision,
};

#[test]
fn terminal_phases_normalise_statuses() {
    assert_eq!(terminal_phase("completed"), "completed");
    assert_eq!(terminal_phase("cancelled"), "cancelled");
    assert_eq!(terminal_phase("timeout"), "timed_out");
    assert_eq!(terminal_phase("timed_out"), "timed_out");
    assert_eq!(terminal_phase("error"), "failed");
}

#[test]
fn outcome_codes_follow_timeout_code_and_phase() {
    let mut r = EpisodeResult::default();
    assert_eq!(terminal_outcome_code(&r, "", "completed"), "ACCEPTED");
    assert_eq!(terminal_outcome_code(&r, "", "cancelled"), "LATE_AFTER_CANCEL");
    assert_eq!(terminal_outcome_code(&r, "", "timed_out"), "LATE_AFTER_TIMEOUT");
    assert_eq!(terminal_outcome_code(&r, "", "failed"), "ALREADY_TERMINAL");
    assert_eq!(terminal_outcome_code(&r, "ERR_X", "failed"), "ERR_X");
    r.metadata.insert("terminal_kind".into(), "timeout".into());
    assert_eq!(terminal_outcome_code(&r, "ERR_X", "completed"), "LATE_AFTER_TIMEOUT");
}

#[test]
fn store_keys() {
    assert_eq!(result_outbox_event_id("ep", 2), "episode-result:ep:2");
    assert_eq!(outcome_key("ep", 2, "lease"), "ep:2:lease");
}

fn row(phase: &str, checksum: Option<&str>) -> AgentJobRow {
    AgentJobRow {
        phase: phase.into(),
        run_id: "run".into(),
        agent_id: "agent".into(),
        completion_checksum: checksum.map(|s| s.to_string()),
    }
}

#[test]
fn agent_completions_are_new_repeats_or_conflicts() {
    let mut req = AgentJobCompleteRequest::default();
    req.job_id = "job".into();
    req.run_id = "run".into();
    req.agent_id = "agent".into();
    let mut result = EpisodeResult::default();
    result.episode_id = "ep".into();
    assert!(matches!(
        completion_decision(None, &req, &result, "sum"),
        CompletionDecision::Answer(IdempotencyDecision::Missing)
    ));
    assert!(matches!(completion_decision(Some(&row("leased", None)), &req, &result, "sum"), CompletionDecision::Commit));
    match completion_decision(Some(&row("completed", Some("sum"))), &req, &result, "sum") {
        CompletionDecision::Answer(IdempotencyDecision::Replay(r)) => {
            assert!(r.ack);
            assert_eq!(r.code, "DUPLICATE_ACCEPTED");
            assert_eq!(r.idempotency_key, "job");
        }
        other => panic!("unexpected {other:?}"),
    }
    assert!(matches!(
        completion_decision(Some(&row("completed", Some("other"))), &req, &result, "sum"),
        CompletionDecision::Answer(IdempotencyDecision::Conflict(_))
    ));
    match completion_decision(Some(&row("pending", None)), &req, &result, "sum") {
        CompletionDecision::Answer(IdempotencyDecision::Conflict(r)) => {
            assert!(!r.ack);
            assert_eq!(r.code, "ACCEPTED");
        }
        other => panic!("unexpected {other:?}"),
    }
}
