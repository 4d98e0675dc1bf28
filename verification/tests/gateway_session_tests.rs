use uenv_server::execution_backend::SweAgentSpec;
use uenv_server::gateway_session::{for_episode_body, for_episode_url, read_for_episode_reply, session_url};
use uenv_server::string_map::StringMap;

fn spec(variant: &str, command_mode: &str) -> SweAgentSpec {
    SweAgentSpec {
        instance_id: "django__django-1".into(),
        benchmark_variant: variant.into(),
        command_mode: command_mode.into(),
        mode: "llm".into(),
        agent_bridge_id: String::new(),
        agent_bridge_version: String::new(),
        agent_pool_id: String::new(),
        driver_entrypoint: String::new(),
        workspace_dir: String::new(),
        llm_config_path: String::new(),
        max_iterations: 0,
        pool_selector: StringMap::new(),
    }
}

#[test]
fn session_addresses_drop_trailing_slashes() {
    assert_eq!(for_episode_url("http://gw:8080//"), "http://gw:8080/runtime/v1/sessions/for-episode");
    assert_eq!(for_episode_url("http://gw:8080"), "http://gw:8080/runtime/v1/sessions/for-episode");
    assert_eq!(session_url("http://gw/", "s-1"), "http://gw/runtime/v1/sessions/s-1");
}

#[test]
fn for_episode_body_names_optional_fields_only_when_set() {
    let body: serde_json::Value = serde_json::from_slice(&for_episode_body(&spec("", ""), "ep-1", "run-1")).unwrap();
    assert_eq!(body["instance_id"], "django__django-1");
    assert_eq!(body["episode_id"], "ep-1");
    assert_eq!(body["run_id"], "run-1");
    assert!(body.get("benchmark_variant").is_none());
    assert!(body.get("command_mode").is_none());
    let body: serde_json::Value = serde_json::from_slice(&for_episode_body(&spec("verified", "bash"), "ep-1", "run-1")).unwrap();
    assert_eq!(body["benchmark_variant"], "verified");
    assert_eq!(body["command_mode"], "bash");
}

#[test]
fn gateway_reply_needs_a_session_id_and_falls_back_to_public_url() {
    let s = read_for_episode_reply(&br#"{"session_id":"s-1","gateway_url":"http://inner"}"#.to_vec(), "http://gw").unwrap();
    assert_eq!(s.session_id, "s-1");
    assert_eq!(s.gateway_url, "http://inner");
    let s = read_for_episode_reply(&br#"{"session_id":"s-2","gateway_url":""}"#.to_vec(), "http://gw").unwrap();
    assert_eq!(s.gateway_url, "http://gw");
    let s = read_for_episode_reply(&br#"{"session_id":"s-3"}"#.to_vec(), "http://gw").unwrap();
    assert_eq!(s.gateway_url, "http://gw");
    let e = read_for_episode_reply(&br#"{"gateway_url":"http://inner"}"#.to_vec(), "http://gw").unwrap_err();
    assert_eq!(e, "for-episode returned empty session_id");
    assert!(read_for_episode_reply(&br#"{"session_id":""}"#.to_vec(), "http://gw").is_err());
}
