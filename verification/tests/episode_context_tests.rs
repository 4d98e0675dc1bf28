use uenv_server::episode_context::EpisodeContext;
use uenv_server::messages::EpisodeRequest;

#[test]
fn context_takes_id_and_attempt_from_the_request() {
    let mut req = EpisodeRequest::default();
    req.episode_id = "ep-42".to_string();
    req.attempt_id = 3;
    req.env_type = "swe".to_string();
    let ts = 1_700_000_000.5f64.to_bits();
    let c = EpisodeContext::from_request(req, "fully_async".to_string(), "b-1".to_string(), 10, ts, 9_010);
    assert_eq!(c.episode_id, "ep-42");
    assert_eq!(c.attempt_id, 3);
    assert_eq!(c.request.env_type, "swe");
    assert_eq!(c.parallel_mode, "fully_async");
    assert_eq!(c.batch_id, "b-1");
    assert_eq!(c.enqueue_at_ms, 10);
    assert_eq!(f64::from_bits(c.enqueue_ts), 1_700_000_000.5);
    assert_eq!(c.deadline_ms, 9_010);
}
