use uenv_server::episode_rules::{agent_complete_to_episode_result, ensure_async_request_context, extract_parallel_mode};
use uenv_server::messages::{AgentJobCompleteRequest, EpisodeRequest, RolloutTrace};
use uenv_server::results::ResultClock;

fn clock() -> ResultClock {
    ResultClock { now_ms: 1_700_000_000_000, now_unix_secs: (1_700_000_000.0f64).to_bits() }
}

#[test]
fn extract_parallel_mode_reads_typed_field() {
    let mut req = EpisodeRequest::default();
    req.parallel_mode = "fully_async".to_string();
    req.payload = br#"{"metadata":{"parallel_mode":"fully_async"}}"#.to_vec();
    req.metadata.insert("parallel_mode".to_string(), "fully_async".to_string());
    assert_eq!(extract_parallel_mode(&req).expect("mode"), "fully_async");
}

#[test]
fn extract_parallel_mode_ignores_request_metadata_legacy_source() {
    let mut req = EpisodeRequest::default();
    req.metadata.insert("parallel_mode".to_string(), "one_step_off_policy".to_string());
    assert_eq!(extract_parallel_mode(&req).expect("mode"), "sync");
}

#[test]
fn extract_parallel_mode_ignores_payload_metadata_legacy_source() {
    let mut req = EpisodeRequest::default();
    req.payload = br#"{"metadata":{"parallel_mode":"fully_async"}}"#.to_vec();
    assert_eq!(extract_parallel_mode(&req).expect("mode"), "sync");
}

#[test]
fn extract_parallel_mode_ignores_conflicting_legacy_sources() {
    let mut req = EpisodeRequest::default();
    req.parallel_mode = "fully_async".to_string();
    req.payload = br#"{"metadata":{"parallel_mode":"sync"}}"#.to_vec();
    assert_eq!(extract_parallel_mode(&req).expect("mode"), "fully_async");
}

#[test]
fn extract_parallel_mode_rejects_unknown_mode() {
    let mut req = EpisodeRequest::default();
    req.parallel_mode = "bogus".to_string();
    assert!(extract_parallel_mode(&req).is_err());
}

#[test]
fn ensure_async_request_context_strips_legacy_protocol_metadata() {
    let mut req = EpisodeRequest::default();
    req.parallel_mode = "fully_async".to_string();
    req.metadata.insert("parallel_mode".to_string(), "sync".to_string());
    req.metadata.insert("trace_tag".to_string(), "keep-me".to_string());

    let ctx = ensure_async_request_context(&mut req, clock()).expect("context");

    assert_eq!(ctx.parallel_mode, "fully_async");
    assert_eq!(req.parallel_mode, "fully_async");
    assert!(!req.metadata.contains_key("parallel_mode"));
    assert_eq!(req.metadata.get("trace_tag").map(String::as_str), Some("keep-me"));
}

#[test]
fn agent_complete_maps_rollout_trace_to_episode_result() {
    let mut complete = AgentJobCompleteRequest::default();
    complete.job_id = "job-1".to_string();
    complete.run_id = "run-1".to_string();
    complete.status = "completed".to_string();
    complete.reward = 1.0f64.to_bits();
    complete.trajectory_id = "traj-1".to_string();
    complete.agent_id = "agent-1".to_string();
    complete.parallel_mode = "fully_async".to_string();
    complete.rollout_param_version = Some(42);
    complete.rollout_policy_version = Some("actor-step-42".to_string());
    complete.rollout_log_probs = vec![(-0.1f32).to_bits(), (-0.2f32).to_bits()];
    complete.rollout_trace = Some(RolloutTrace { response_ids: vec![101, 102], response_mask: vec![1, 1] });

    let result = agent_complete_to_episode_result(&complete, "episode-1", 1, "gateway-session-1", "completed");

    assert_eq!(result.episode_id, "episode-1");
    assert_eq!(result.trajectory_id, "traj-1");
    assert_eq!(result.rollout_param_version, Some(42));
    assert_eq!(result.rollout_policy_version.as_deref(), Some("actor-step-42"));
    assert_eq!(result.rollout_log_probs, vec![(-0.1f32).to_bits(), (-0.2f32).to_bits()]);
    let trace = result
        .trajectory
        .as_ref()
        .and_then(|trajectory| trajectory.steps.first())
        .and_then(|step| step.rollout_trace.as_ref())
        .expect("rollout trace");
    assert_eq!(trace.response_ids, vec![101, 102]);
    assert_eq!(trace.response_mask, vec![1, 1]);
}
