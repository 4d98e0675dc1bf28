use uenv_server::execution_backend::{select_execution_backend, SelectedExecutionBackend, SweAgentSpec};
use uenv_server::messages::EpisodeRequest;

#[test]
fn selects_native_backend_for_non_swe_requests() {
    let mut req = EpisodeRequest::default();
    req.env_type = "echo".to_string();
    assert!(matches!(select_execution_backend(&req), SelectedExecutionBackend::Native));
}

#[test]
fn selects_swe_backend_for_agent_payload() {
    let mut req = EpisodeRequest::default();
    req.env_type = "swe".to_string();
    req.payload = br#"{"execution_mode":"agent","instance_id":"swe-instance-1"}"#.to_vec();
    assert!(matches!(select_execution_backend(&req), SelectedExecutionBackend::SweAgent(_)));
}

#[test]
fn swe_payload_without_agent_mode_or_instance_stays_native() {
    let mut req = EpisodeRequest::default();
    req.env_type = "swe".to_string();
    req.payload = br#"{"execution_mode":"native","instance_id":"x"}"#.to_vec();
    assert!(matches!(select_execution_backend(&req), SelectedExecutionBackend::Native));
    req.payload = br#"{"execution_mode":"agent","instance_id":""}"#.to_vec();
    assert!(matches!(select_execution_backend(&req), SelectedExecutionBackend::Native));
    req.payload = b"not json".to_vec();
    assert!(matches!(select_execution_backend(&req), SelectedExecutionBackend::Native));
}

#[test]
fn swe_spec_reads_fields_with_defaults() {
    let mut req = EpisodeRequest::default();
    req.env_type = "swe".to_string();
    req.payload = br#"{"execution_mode":"agent","instance_id":"i-1","agent_pool_id":"pool-a","max_iterations":25,"pool_selector":{"region":"bj","gpu":3}}"#.to_vec();
    let spec = SweAgentSpec::from_payload(&req).expect("spec");
    assert_eq!(spec.instance_id, "i-1");
    assert_eq!(spec.agent_pool_id, "pool-a");
    assert_eq!(spec.mode, "llm");
    assert_eq!(spec.benchmark_variant, "");
    assert_eq!(spec.max_iterations, 25);
    assert_eq!(spec.pool_selector.get("region").map(String::as_str), Some("bj"));
    assert!(!spec.pool_selector.contains_key("gpu"));
    assert_eq!(spec.pool_selector.len(), 1);
}

#[test]
fn swe_backend_carries_the_payload_spec() {
    let mut req = EpisodeRequest::default();
    req.env_type = "swe".to_string();
    req.payload = br#"{"execution_mode":"agent","instance_id":"swe-9","agent_pool_id":"pool-x","agent_bridge_id":"b","max_iterations":7}"#.to_vec();
    match select_execution_backend(&req) {
        SelectedExecutionBackend::SweAgent(spec) => {
            assert_eq!(spec.instance_id, "swe-9");
            assert_eq!(spec.agent_pool_id, "pool-x");
            assert_eq!(spec.agent_bridge_id, "b");
            assert_eq!(spec.max_iterations, 7);
            assert_eq!(spec.mode, "llm");
        }
        other => panic!("unexpected {other:?}"),
    }
}
