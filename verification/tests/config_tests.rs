use uenv_server::config::ServerConfig;

#[test]
fn config_defaults_match_hardcoded_originals() {
    let cfg = ServerConfig::default();
    assert_eq!(cfg.scheduler.worker_degraded_threshold_secs, 400);
    assert_eq!(cfg.scheduler.schedule_retry_interval_ms, 500);
    assert_eq!(cfg.scheduler.heartbeat_interval_ms, 5000);
    assert_eq!(cfg.scheduler.heartbeat_timeout_secs, 30);
    assert_eq!(cfg.episode.default_timeout_secs, 300);
    assert_eq!(cfg.episode.stale_warning_secs, 150);
    assert_eq!(cfg.episode.max_attempts, 3);
    assert_eq!(cfg.episode.broadcast_capacity, 1024);
    assert_eq!(cfg.admin_http_bind, "127.0.0.1");
    assert_eq!(cfg.admin_http_token, "");
    assert_eq!(cfg.episode.completed_async_ttl_secs, 3600);
    assert_eq!(cfg.episode.completed_async_max_entries, 10000);
    assert_eq!(cfg.episode.agent_job_pickup_timeout_secs, 30);
    assert!(cfg.persistence.enabled);
    assert_eq!(cfg.persistence.db_path, "./server-state/server-state.db");
}

#[test]
fn relative_persistence_path_is_resolved_from_config_directory() {
    let cfg = ServerConfig::default();
    assert_eq!(
        cfg.resolve_persistence_db_path("/opt/uenv/config/server.yaml"),
        "/opt/uenv/config/./server-state/server-state.db".to_string()
    );
}

#[test]
fn absolute_persistence_path_is_kept() {
    let mut cfg = ServerConfig::default();
    cfg.persistence.db_path = "/var/lib/uenv/state.db".to_string();
    assert_eq!(cfg.resolve_persistence_db_path("/opt/uenv/config/server.yaml"), "/var/lib/uenv/state.db");
}

#[test]
fn bare_config_file_name_resolves_under_current_directory() {
    let cfg = ServerConfig::default();
    assert_eq!(cfg.resolve_persistence_db_path("server.yaml"), "./server-state/server-state.db");
}

#[test]
fn default_config_is_valid() {
    assert!(ServerConfig::default().validate().is_ok());
}

#[test]
fn config_unknown_scheduler_strategy_fails_fast() {
    let mut cfg = ServerConfig::default();
    cfg.scheduler.strategy = "least_load".to_string();
    let err = cfg.validate().expect_err("strategy should fail");
    assert!(err.contains("unsupported scheduler.strategy"));
    assert_eq!(err, "unsupported scheduler.strategy 'least_load': expected 'round_robin'");
}

#[test]
fn config_invalid_timeout_fails_fast() {
    let mut cfg = ServerConfig::default();
    cfg.episode.default_timeout_secs = 0;
    let err = cfg.validate().expect_err("timeout should fail");
    assert!(err.contains("default_timeout_secs"));
}

#[test]
fn zero_retry_interval_is_rejected() {
    let mut cfg = ServerConfig::default();
    cfg.scheduler.schedule_retry_interval_ms = 0;
    assert_eq!(cfg.validate().unwrap_err(), "scheduler.schedule_retry_interval_ms must be greater than 0");
}
