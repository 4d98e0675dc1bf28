use uenv_server::messages::{EpisodeRequest, EpisodeResult, StepRecord, Trajectory};
use uenv_server::persistence::{
    append_len_prefixed, append_sorted_string_map, decide_idempotency, hex_lower, idempotency_expiry_ms, request_checksum,
    result_checksum, sha256_hex, IdempotencyDecision, IdempotencyRecord,
};
use uenv_server::string_map::StringMap;

#[test]
fn request_checksum_is_stable_across_map_order() {
    let mut left = EpisodeRequest::default();
    left.episode_id = "episode-map-order".to_string();
    left.metadata.insert("z".to_string(), "last".to_string());
    left.metadata.insert("a".to_string(), "first".to_string());
    let mut right = EpisodeRequest::default();
    right.episode_id = left.episode_id.clone();
    right.metadata.insert("a".to_string(), "first".to_string());
    right.metadata.insert("z".to_string(), "last".to_string());
    assert_eq!(left.metadata.get("a"), right.metadata.get("a"));
    assert_eq!(request_checksum(&left), request_checksum(&right));
}

#[test]
fn result_checksum_is_stable_across_nested_map_order() {
    let mut left = EpisodeResult::default();
    left.episode_id = "episode-result-map-order".to_string();
    left.status = "completed".to_string();
    left.metadata.insert("z".to_string(), "last".to_string());
    left.metadata.insert("a".to_string(), "first".to_string());
    let mut left_info = StringMap::new();
    left_info.insert("y".to_string(), "two".to_string());
    left_info.insert("b".to_string(), "one".to_string());
    left.trajectory = Some(Trajectory {
        steps: vec![StepRecord { step_index: 0, rollout_trace: None, info: left_info }],
        total_reward: 0,
        total_steps: 0,
    });

    let mut right = EpisodeResult::default();
    right.episode_id = left.episode_id.clone();
    right.status = left.status.clone();
    right.metadata.insert("a".to_string(), "first".to_string());
    right.metadata.insert("z".to_string(), "last".to_string());
    let mut right_info = StringMap::new();
    right_info.insert("b".to_string(), "one".to_string());
    right_info.insert("y".to_string(), "two".to_string());
    right.trajectory = Some(Trajectory {
        steps: vec![StepRecord { step_index: 0, rollout_trace: None, info: right_info }],
        total_reward: 0,
        total_steps: 0,
    });

    assert_eq!(result_checksum(&left), result_checksum(&right));
}

#[test]
fn checksum_ignores_dispatch_bookkeeping_but_not_content() {
    let mut a = EpisodeRequest::default();
    a.episode_id = "ep".to_string();
    let mut b = EpisodeRequest::default();
    b.episode_id = "ep".to_string();
    b.dispatch_lease_id = "lease-9".to_string();
    b.scheduler_epoch = 7;
    b.metadata.insert("dispatch_ts".to_string(), "123.0".to_string());
    assert_eq!(request_checksum(&a), request_checksum(&b));
    b.env_type = "math".to_string();
    assert_ne!(request_checksum(&a), request_checksum(&b));
}

#[test]
fn sha256_of_empty_input_is_the_known_digest() {
    assert_eq!(sha256_hex(&Vec::new()), "e3b0c44298fc1c149afbf4c8996fb92427ae41e4649b934ca495991b7852b855");
    assert_eq!(sha256_hex(&b"abc".to_vec()), "ba7816bf8f01cfea414140de5dae2223b00361a396177a9cb410ff61f20015ad");
}

#[test]
fn hex_is_two_lower_case_digits_per_byte() {
    assert_eq!(hex_lower(&vec![0x00, 0x0f, 0xa5, 0xff]), "000fa5ff");
}

#[test]
fn length_prefix_is_eight_little_endian_bytes() {
    let mut out = vec![9u8];
    append_len_prefixed(&mut out, b"hi");
    assert_eq!(out, vec![9, 2, 0, 0, 0, 0, 0, 0, 0, b'h', b'i']);
}

#[test]
fn sorted_map_bytes_list_entries_in_key_order() {
    let mut m = StringMap::new();
    m.insert("b".to_string(), "2".to_string());
    m.insert("a".to_string(), "1".to_string());
    let mut out = Vec::new();
    append_sorted_string_map(&mut out, &m);
    let mut expected = vec![2u8, 0, 0, 0, 0, 0, 0, 0];
    for s in ["a", "1", "b", "2"] {
        expected.extend_from_slice(&(s.len() as u64).to_le_bytes());
        expected.extend_from_slice(s.as_bytes());
    }
    assert_eq!(out, expected);
}

fn record(worker: &str, checksum: &str) -> IdempotencyRecord {
    IdempotencyRecord {
        idempotency_key: "key-1".to_string(),
        episode_id: "episode-2".to_string(),
        attempt_id: 1,
        dispatch_lease_id: "lease-1".to_string(),
        worker_id: worker.to_string(),
        server_epoch: 1,
        result_checksum: checksum.to_string(),
        ack: true,
        code: "ACCEPTED".to_string(),
        message: "accepted".to_string(),
        expires_at_ms: 60000,
    }
}

#[test]
fn idempotency_key_conflict_is_detected() {
    let stored = record("worker-1", "c1");
    assert!(matches!(decide_idempotency(None, &stored), IdempotencyDecision::Missing));
    assert!(matches!(decide_idempotency(Some(stored.clone()), &record("worker-1", "c1")), IdempotencyDecision::Replay(_)));
    assert!(matches!(decide_idempotency(Some(stored.clone()), &record("worker-2", "c1")), IdempotencyDecision::Conflict(_)));
    assert!(matches!(decide_idempotency(Some(stored), &record("worker-1", "c2")), IdempotencyDecision::Conflict(_)));
}

#[test]
fn idempotency_expiry_saturates() {
    assert_eq!(idempotency_expiry_ms(1_000, 30), 31_000);
    assert_eq!(idempotency_expiry_ms(i64::MAX - 5, 30), i64::MAX);
    assert_eq!(idempotency_expiry_ms(0, u64::MAX), i64::MAX);
}
