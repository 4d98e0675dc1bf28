use uenv_server::active_episodes::ActiveEpisodes;
use uenv_server::state::ActiveEpisode;

fn running(id: &str) -> ActiveEpisode {
    ActiveEpisode {
        episode_id: id.to_string(),
        attempt_id: 1,
        worker_id: String::new(),
        started_at_ms: 5,
        parallel_mode: "sync".to_string(),
        enqueue_at_ms: 5,
        enqueue_ts: 0,
        batch_id: "b".to_string(),
    }
}

#[test]
fn a_running_episode_cannot_be_submitted_again() {
    let mut t = ActiveEpisodes::new();
    assert!(t.start(running("ep-1")).is_ok());
    assert!(t.contains("ep-1"));
    assert_eq!(t.start(running("ep-1")).unwrap_err(), "episode ep-1 is already active");
    assert!(t.start(running("ep-2")).is_ok());
}

#[test]
fn a_released_episode_may_be_submitted_again() {
    let mut t = ActiveEpisodes::new();
    assert!(t.start(running("ep-1")).is_ok());
    t.release("ep-1");
    assert!(!t.contains("ep-1"));
    assert!(t.start(running("ep-1")).is_ok());
}
