use uenv_server::messages::EpisodeResult;
use uenv_server::server_caches::{report_result_idempotency_ttl_secs, LeaseCounter, RecordKey, ServerCaches, TtlTable};

fn key(name: &str, attempt_id: u32, lease_id: &str) -> RecordKey {
    RecordKey { name: name.to_string(), attempt_id, lease_id: lease_id.to_string() }
}

#[test]
fn lease_ids_count_up_from_one_within_an_epoch() {
    let mut c = LeaseCounter::new(1700000000123);
    assert_eq!(c.next_lease_id(), "lease-1700000000123-1");
    assert_eq!(c.next_lease_id(), "lease-1700000000123-2");
    assert_eq!(c.next, 3);
}

#[test]
fn lease_counter_wraps_at_the_limit() {
    let mut c = LeaseCounter { epoch: 7, next: u64::MAX };
    assert_eq!(c.next_lease_id(), format!("lease-7-{}", u64::MAX));
    assert_eq!(c.next, 0);
}

#[test]
fn a_later_put_under_the_same_key_replaces_the_record() {
    let mut t: TtlTable<u32> = TtlTable::new();
    t.put(key("ep", 1, "l1"), 100, 5);
    t.put(key("ep", 2, "l1"), 100, 6);
    t.put(key("ep", 1, "l1"), 200, 7);
    assert_eq!(t.get("ep", 1, "l1"), Some(&7));
    assert_eq!(t.get("ep", 2, "l1"), Some(&6));
    assert_eq!(t.get("ep", 1, "l2"), None);
}

#[test]
fn sweep_keeps_records_by_their_expiry() {
    let mut t: TtlTable<u32> = TtlTable::new();
    t.put(key("a", 0, ""), 100, 1);
    t.put(key("b", 0, ""), 150, 2);
    t.put(key("c", 0, ""), 200, 3);
    t.sweep(150, true);
    assert_eq!(t.get("a", 0, ""), None);
    assert_eq!(t.get("b", 0, ""), Some(&2));
    t.sweep(150, false);
    assert_eq!(t.get("b", 0, ""), None);
    assert_eq!(t.get("c", 0, ""), Some(&3));
}

#[test]
fn outcomes_expire_after_the_outcome_ttl() {
    let mut c = ServerCaches::new(3600, 0);
    assert_eq!(c.outcome_ttl_secs, 3600);
    c.remember_cancel_outcome("ep-1", "EPISODE_CANCELLED", "cancelled by user", 1_000);
    c.remember_result_outcome("ep-2", 3, "lease-9-4", "RESULT_ACCEPTED", "ok", 2_000);
    let o = c.cancel_outcomes.get("ep-1", 0, "").unwrap();
    assert_eq!(o.code, "EPISODE_CANCELLED");
    assert_eq!(o.message, "cancelled by user");
    assert_eq!(o.expires_at_ms, 3_601_000);
    let r = c.result_outcomes.get("ep-2", 3, "lease-9-4").unwrap();
    assert_eq!(r.expires_at_ms, 3_602_000);
    assert_eq!(r.code, "RESULT_ACCEPTED");
    c.sweep(3_601_000, &vec![]);
    assert!(c.cancel_outcomes.get("ep-1", 0, "").is_none());
    assert!(c.result_outcomes.get("ep-2", 3, "lease-9-4").is_some());
}

#[test]
fn outcome_ttl_is_at_least_one_second_and_saturates() {
    let mut c = ServerCaches::new(0, 0);
    assert_eq!(c.outcome_ttl_secs, 1);
    c.remember_cancel_outcome("ep", "C", "m", u64::MAX - 10);
    assert_eq!(c.cancel_outcomes.get("ep", 0, "").unwrap().expires_at_ms, u64::MAX);
}

#[test]
fn idempotency_ttl_is_twice_the_timeout_but_at_least_an_hour() {
    assert_eq!(report_result_idempotency_ttl_secs(300), 3600);
    assert_eq!(report_result_idempotency_ttl_secs(7200), 14400);
    assert_eq!(report_result_idempotency_ttl_secs(u64::MAX), u64::MAX);
}

#[test]
fn cancellations_are_kept_only_while_the_episode_runs() {
    let mut c = ServerCaches::new(3600, 0);
    c.mark_cancelled("ep-1");
    c.mark_cancelled("ep-2");
    c.mark_cancelled("ep-1");
    assert_eq!(c.cancelled_episodes, vec!["ep-1".to_string(), "ep-2".to_string()]);
    c.sweep(0, &vec!["ep-2".to_string(), "ep-3".to_string()]);
    assert_eq!(c.cancelled_episodes, vec!["ep-2".to_string()]);
}

fn finished(id: &str, status: &str) -> EpisodeResult {
    let mut r = EpisodeResult::default();
    r.episode_id = id.to_string();
    r.status = status.to_string();
    r
}

#[test]
fn completed_results_are_capped_earliest_first_and_expire() {
    let mut c = ServerCaches::new(3600, 10);
    c.store_completed_async(finished("ep-1", "completed"), 1_000, 2);
    c.store_completed_async(finished("ep-2", "completed"), 2_000, 2);
    c.store_completed_async(finished("ep-3", "failed"), 3_000, 2);
    assert!(c.completed_async.get("ep-1", 0, "").is_none());
    assert_eq!(c.completed_async.get("ep-2", 0, "").unwrap().completed_at_ms, 2_000);
    assert_eq!(c.completed_async.get("ep-3", 0, "").unwrap().result.status, "failed");
    // Ten seconds after they finished, ep-2 and ep-3 are gone.
    c.store_completed_async(finished("ep-4", "completed"), 13_500, 5);
    assert!(c.completed_async.get("ep-2", 0, "").is_none());
    assert!(c.completed_async.get("ep-3", 0, "").is_none());
    assert!(c.completed_async.get("ep-4", 0, "").is_some());
}

#[test]
fn no_completed_result_is_kept_without_room() {
    let mut c = ServerCaches::new(3600, 0);
    c.store_completed_async(finished("ep-1", "completed"), 1_000, 0);
    assert!(c.completed_async.get("ep-1", 0, "").is_none());
    c.store_completed_async(finished("ep-1", "completed"), 1_000, 3);
    c.store_completed_async(finished("ep-1", "failed"), 2_000, 3);
    assert_eq!(c.completed_async.get("ep-1", 0, "").unwrap().result.status, "failed");
}

#[test]
fn cap_drops_the_earliest_expiring_records_first() {
    let mut t: TtlTable<u32> = TtlTable::new();
    t.put(key("a", 0, ""), 300, 1);
    t.put(key("b", 0, ""), 100, 2);
    t.put(key("c", 0, ""), 100, 3);
    t.put(key("d", 0, ""), 200, 4);
    t.cap(2);
    assert!(t.get("b", 0, "").is_none());
    assert!(t.get("c", 0, "").is_none());
    assert_eq!(t.get("a", 0, ""), Some(&1));
    assert_eq!(t.get("d", 0, ""), Some(&4));
}

#[test]
fn a_repeated_report_finds_the_remembered_answer() {
    let mut c = ServerCaches::new(3600, 0);
    c.remember_answer("idem-1", "ep-1", 2, "lease-5-1", true, "RESULT_ACCEPTED", "ok", 10_000);
    let r = c.answers.get("idem-1", 0, "").unwrap();
    assert!(r.ack);
    assert_eq!(r.episode_id, "ep-1");
    assert_eq!(r.attempt_id, 2);
    assert_eq!(r.dispatch_lease_id, "lease-5-1");
    assert_eq!(r.expires_at_ms, 3_610_000);
    c.sweep(3_610_000, &vec![]);
    assert!(c.answers.get("idem-1", 0, "").is_none());
}
