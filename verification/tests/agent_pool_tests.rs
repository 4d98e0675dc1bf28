use uenv_server::admission::PermitChange;
use uenv_server::agent_pool::{AgentInfo, AgentRegistry, AgentSelectError, RoutingConfig, SyncedAgentBridgeInfo};
use uenv_server::clock::clock_ms;
use uenv_server::string_map::StringMap;

fn mk_labeled(id: &str, pool: &str, bridge_ver: &str, max: u32, labels: StringMap) -> AgentInfo {
    AgentInfo {
        agent_id: id.to_string(),
        agent_pool_id: pool.to_string(),
        synced_agent_bridges: vec![SyncedAgentBridgeInfo {
            package_id: "uenv-agent-openhands".to_string(),
            version: bridge_ver.to_string(),
            bundle_digest: "sha256:x".to_string(),
        }],
        max_concurrent: max,
        current_load: 0,
        reserved_load: 0,
        reported_load: 0,
        endpoint: String::new(),
        last_heartbeat_at: clock_ms(),
        labels,
    }
}

fn mk(id: &str, pool: &str, bridge_ver: &str, max: u32) -> AgentInfo {
    mk_labeled(id, pool, bridge_ver, max, StringMap::new())
}

fn apply(permits: &mut i64, change: PermitChange) {
    match change {
        PermitChange::Unchanged => {}
        PermitChange::Grow(n) => *permits += n as i64,
        PermitChange::Shrink(n) => *permits -= n as i64,
    }
}

fn pick_matches_bridge_version_body() {
    let mut reg = AgentRegistry::new(60);
    reg.register(mk("a1", "openhands-default", "1.0.0", 2), clock_ms());
    let got = reg.pick_agent("openhands-default", "uenv-agent-openhands", "1.0.0", clock_ms()).unwrap();
    assert_eq!(got.agent_id, "a1");
}

fn pick_rejects_mismatched_version_body() {
    let mut reg = AgentRegistry::new(60);
    reg.register(mk("a1", "openhands-default", "1.0.0", 2), clock_ms());
    let err = reg.pick_agent("openhands-default", "uenv-agent-openhands", "2.0.0", clock_ms()).unwrap_err();
    assert!(matches!(err, AgentSelectError::NoMatchingBridge));
}

fn pick_respects_capacity_body() {
    let mut reg = AgentRegistry::new(60);
    reg.register(mk("a1", "openhands-default", "1.0.0", 1), clock_ms());
    reg.increment_load("a1");
    let err = reg.pick_agent("openhands-default", "uenv-agent-openhands", "1.0.0", clock_ms()).unwrap_err();
    assert!(matches!(err, AgentSelectError::AllAgentsAtCapacity));
    reg.decrement_load("a1");
    assert!(reg.pick_agent("openhands-default", "uenv-agent-openhands", "1.0.0", clock_ms()).is_ok());
}

fn empty_pool_errors_body() {
    let mut reg = AgentRegistry::new(60);
    let err = reg.pick_agent("openhands-default", "", "", clock_ms()).unwrap_err();
    assert!(matches!(err, AgentSelectError::NoAgentInPool));
}

fn try_reserve_atomic_gate_respects_capacity_body() {
    let mut reg = AgentRegistry::new(60);
    reg.register(mk("a1", "openhands-default", "1.0.0", 2), clock_ms());
    let r1 = reg.try_reserve("openhands-default", "", "", "", clock_ms());
    let r2 = reg.try_reserve("openhands-default", "", "", "", clock_ms());
    let r3 = reg.try_reserve("openhands-default", "", "", "", clock_ms());
    assert_eq!(r1.as_deref(), Some("a1"));
    assert_eq!(r2.as_deref(), Some("a1"));
    assert!(r3.is_none(), "capacity 2 exhausted → None");
    reg.decrement_load("a1");
    assert!(reg.try_reserve("openhands-default", "", "", "", clock_ms()).is_some());
}

fn pool_capacity_and_semaphore_grow_with_registration_body() {
    let mut reg = AgentRegistry::new(60);
    let mut permits: i64 = 0;
    assert_eq!(reg.pool_capacity("openhands-default", clock_ms()), 0);
    apply(&mut permits, reg.pool_semaphore("openhands-default", clock_ms()).change);
    assert_eq!(permits, 0);

    for u in reg.register(mk("a1", "openhands-default", "1.0.0", 3), clock_ms()) {
        apply(&mut permits, u.change);
    }
    assert_eq!(reg.pool_capacity("openhands-default", clock_ms()), 3);
    apply(&mut permits, reg.pool_semaphore("openhands-default", clock_ms()).change);
    assert_eq!(permits, 3);

    for u in reg.register(mk("a2", "openhands-default", "1.0.0", 2), clock_ms()) {
        apply(&mut permits, u.change);
    }
    assert_eq!(reg.pool_capacity("openhands-default", clock_ms()), 5);
    apply(&mut permits, reg.pool_semaphore("openhands-default", clock_ms()).change);
    assert_eq!(permits, 5);
}

fn resolve_pool_id_ignores_capacity_but_checks_bridge_body() {
    let mut reg = AgentRegistry::new(60);
    reg.register(mk("a1", "openhands-pro", "1.0.0", 1), clock_ms());
    reg.increment_load("a1");
    let sel = StringMap::new();
    assert_eq!(reg.resolve_pool_id("", "uenv-agent-openhands", "1.0.0", "", &sel, clock_ms()).unwrap(), "openhands-pro");
    assert!(matches!(
        reg.resolve_pool_id("", "uenv-agent-openhands", "9.9.9", "", &sel, clock_ms()).unwrap_err(),
        AgentSelectError::NoMatchingBridge
    ));
    let empty = AgentRegistry::new(60);
    assert!(matches!(empty.resolve_pool_id("", "", "", "", &sel, clock_ms()).unwrap_err(), AgentSelectError::NoAgentInPool));
}

fn resolve_pool_id_load_balances_across_pools_body() {
    let mut reg = AgentRegistry::new(60);
    reg.register(mk("a1", "pool-a", "1.0.0", 2), clock_ms());
    reg.register(mk("b1", "pool-b", "1.0.0", 5), clock_ms());
    let sel = StringMap::new();
    assert_eq!(reg.resolve_pool_id("", "uenv-agent-openhands", "1.0.0", "", &sel, clock_ms()).unwrap(), "pool-b");
    reg.increment_load("b1");
    reg.increment_load("b1");
    reg.increment_load("b1");
    reg.increment_load("b1");
    assert_eq!(reg.resolve_pool_id("", "uenv-agent-openhands", "1.0.0", "", &sel, clock_ms()).unwrap(), "pool-a");
}

fn resolve_pool_id_explicit_pool_wins_body() {
    let mut reg = AgentRegistry::new(60);
    reg.register(mk("a1", "pool-a", "1.0.0", 2), clock_ms());
    reg.register(mk("b1", "pool-b", "1.0.0", 9), clock_ms());
    let sel = StringMap::new();
    assert_eq!(reg.resolve_pool_id("pool-a", "uenv-agent-openhands", "1.0.0", "", &sel, clock_ms()).unwrap(), "pool-a");
}

fn resolve_pool_id_variant_mapping_then_fallback_body() {
    let mut vmap = StringMap::new();
    vmap.insert("pro".to_string(), "openhands-pro".to_string());
    let mut reg = AgentRegistry::with_routing(60, RoutingConfig { variant_pool_map: vmap });
    reg.register(mk("a1", "openhands-default", "1.0.0", 9), clock_ms());
    reg.register(mk("b1", "openhands-pro", "1.0.0", 1), clock_ms());
    let sel = StringMap::new();
    assert_eq!(reg.resolve_pool_id("", "uenv-agent-openhands", "1.0.0", "pro", &sel, clock_ms()).unwrap(), "openhands-pro");
    assert_eq!(
        reg.resolve_pool_id("", "uenv-agent-openhands", "1.0.0", "unknown", &sel, clock_ms()).unwrap(),
        "openhands-default"
    );
}

fn resolve_pool_id_label_affinity_soft_body() {
    let mut bj = StringMap::new();
    bj.insert("region".to_string(), "bj".to_string());
    let mut sh = StringMap::new();
    sh.insert("region".to_string(), "sh".to_string());
    let mut reg = AgentRegistry::new(60);
    reg.register(mk_labeled("a1", "pool-bj", "1.0.0", 1, bj.clone()), clock_ms());
    reg.register(mk_labeled("b1", "pool-sh", "1.0.0", 9, sh), clock_ms());
    assert_eq!(reg.resolve_pool_id("", "uenv-agent-openhands", "1.0.0", "", &bj, clock_ms()).unwrap(), "pool-bj");
    let mut gz = StringMap::new();
    gz.insert("region".to_string(), "gz".to_string());
    assert_eq!(reg.resolve_pool_id("", "uenv-agent-openhands", "1.0.0", "", &gz, clock_ms()).unwrap(), "pool-sh");
}

fn snapshot_reflects_agents_and_load_body() {
    let mut reg = AgentRegistry::new(60);
    reg.register(mk("a1", "openhands-default", "1.0.0", 3), clock_ms());
    reg.increment_load("a1");
    let snap = reg.snapshot(clock_ms());
    assert_eq!(snap.len(), 1);
    let a = &snap[0];
    assert_eq!(a.agent_id, "a1");
    assert_eq!(a.agent_pool_id, "openhands-default");
    assert_eq!(a.max_concurrent, 3);
    assert_eq!(a.current_load, 1);
    assert!(!a.stale);
    assert_eq!(a.bridges, vec!["uenv-agent-openhands@1.0.0".to_string()]);
}

#[test]
fn agent_pool_pick_matches_bridge_version() {
    pick_matches_bridge_version_body();
}

#[test]
fn agent_pool_pick_rejects_mismatched_version() {
    pick_rejects_mismatched_version_body();
}

#[test]
fn agent_pool_pick_respects_capacity() {
    pick_respects_capacity_body();
}

#[test]
fn agent_pool_empty_pool_errors() {
    empty_pool_errors_body();
}

#[test]
fn agent_pool_try_reserve_atomic_gate_respects_capacity() {
    try_reserve_atomic_gate_respects_capacity_body();
}

#[test]
fn agent_pool_pool_capacity_and_semaphore_grow_with_registration() {
    pool_capacity_and_semaphore_grow_with_registration_body();
}

#[test]
fn agent_pool_resolve_pool_id_ignores_capacity_but_checks_bridge() {
    resolve_pool_id_ignores_capacity_but_checks_bridge_body();
}

#[test]
fn agent_pool_resolve_pool_id_load_balances_across_pools() {
    resolve_pool_id_load_balances_across_pools_body();
}

#[test]
fn agent_pool_resolve_pool_id_explicit_pool_wins() {
    resolve_pool_id_explicit_pool_wins_body();
}

#[test]
fn agent_pool_resolve_pool_id_variant_mapping_then_fallback() {
    resolve_pool_id_variant_mapping_then_fallback_body();
}

#[test]
fn agent_pool_resolve_pool_id_label_affinity_soft() {
    resolve_pool_id_label_affinity_soft_body();
}

#[test]
fn agent_pool_snapshot_reflects_agents_and_load() {
    snapshot_reflects_agents_and_load_body();
}

#[test]
fn tests_pick_matches_bridge_version() {
    pick_matches_bridge_version_body();
}

#[test]
fn tests_pick_rejects_mismatched_version() {
    pick_rejects_mismatched_version_body();
}

#[test]
fn tests_pick_respects_capacity() {
    pick_respects_capacity_body();
}

#[test]
fn tests_empty_pool_errors() {
    empty_pool_errors_body();
}

#[test]
fn tests_try_reserve_atomic_gate_respects_capacity() {
    try_reserve_atomic_gate_respects_capacity_body();
}

#[test]
fn tests_pool_capacity_and_semaphore_grow_with_registration() {
    pool_capacity_and_semaphore_grow_with_registration_body();
}

#[test]
fn tests_resolve_pool_id_ignores_capacity_but_checks_bridge() {
    resolve_pool_id_ignores_capacity_but_checks_bridge_body();
}

#[test]
fn tests_resolve_pool_id_load_balances_across_pools() {
    resolve_pool_id_load_balances_across_pools_body();
}

#[test]
fn tests_resolve_pool_id_explicit_pool_wins() {
    resolve_pool_id_explicit_pool_wins_body();
}

#[test]
fn tests_resolve_pool_id_variant_mapping_then_fallback() {
    resolve_pool_id_variant_mapping_then_fallback_body();
}

#[test]
fn tests_resolve_pool_id_label_affinity_soft() {
    resolve_pool_id_label_affinity_soft_body();
}

#[test]
fn tests_snapshot_reflects_agents_and_load() {
    snapshot_reflects_agents_and_load_body();
}

#[test]
fn pool_permits_shrink_when_agent_unregisters() {
    let mut reg = AgentRegistry::new(60);
    let mut permits: i64 = 0;
    for u in reg.register(mk("a1", "openhands-default", "1.0.0", 3), clock_ms()) {
        apply(&mut permits, u.change);
    }
    assert_eq!(permits, 3);
    let u = reg.unregister("a1", clock_ms()).expect("update");
    apply(&mut permits, u.change);
    assert_eq!(permits, 0);
}

#[test]
fn stale_agents_are_not_picked() {
    let mut reg = AgentRegistry::new(60);
    let mut a = mk("a1", "openhands-default", "1.0.0", 2);
    a.last_heartbeat_at = clock_ms() - 120_000;
    reg.register(a, clock_ms());
    let err = reg.pick_agent("openhands-default", "", "", clock_ms()).unwrap_err();
    assert!(matches!(err, AgentSelectError::NoAgentInPool));
    assert!(reg.snapshot(clock_ms())[0].stale);
}

#[test]
fn select_errors_have_their_messages() {
    assert_eq!(AgentSelectError::NoAgentInPool.message(), "no agent registered in pool");
    assert_eq!(AgentSelectError::NoMatchingBridge.message(), "no agent has synced the requested agent_bridge");
    assert_eq!(AgentSelectError::AllAgentsAtCapacity.message(), "all agents at capacity");
}

#[test]
fn try_reserve_grants_the_preferred_agent_when_it_may_take_the_job() {
    let mut reg = AgentRegistry::new(60);
    reg.register(mk("a1", "openhands-default", "1.0.0", 1), clock_ms());
    reg.register(mk("a2", "openhands-default", "1.0.0", 1), clock_ms());
    assert_eq!(reg.try_reserve("openhands-default", "", "", "a2", clock_ms()).as_deref(), Some("a2"));
    // a2 is full now: the round-robin part hands out a1, then nothing.
    assert_eq!(reg.try_reserve("openhands-default", "", "", "a2", clock_ms()).as_deref(), Some("a1"));
    assert!(reg.try_reserve("openhands-default", "", "", "a2", clock_ms()).is_none());
    assert!(reg.try_reserve("other-pool", "", "", "", clock_ms()).is_none());
}
