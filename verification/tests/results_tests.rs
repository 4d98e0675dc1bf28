use uenv_server::messages::{EpisodeRequest, ErrorCode};
use uenv_server::results::{cancelled_result_from_request, timeout_result_from_request, ResultClock};

fn request() -> EpisodeRequest {
    let mut r = EpisodeRequest::default();
    r.episode_id = "ep-terminal".to_string();
    r.attempt_id = 3;
    r.parallel_mode = "fully_async".to_string();
    r
}

fn clock() -> ResultClock {
    ResultClock { now_ms: 1_700_000_000_000, now_unix_secs: (1_700_000_000.0f64).to_bits() }
}

#[test]
fn cancelled_result_has_cancelled_status_without_timeout_code() {
    let result = cancelled_result_from_request(&request(), "user cancelled".to_string(), None, clock());
    assert_eq!(result.episode_id, "ep-terminal");
    assert_eq!(result.attempt_id, 3);
    assert_eq!(result.status, "cancelled");
    assert_eq!(result.error_code, None);
    assert_eq!(result.error_message, "user cancelled");
    assert_eq!(result.metadata.get("terminal_kind").map(String::as_str), Some("cancelled"));
    assert_eq!(result.parallel_mode, "fully_async");
}

#[test]
fn timeout_result_has_timeout_terminal_kind_and_timeout_code() {
    let result = timeout_result_from_request(&request(), "deadline reached".to_string(), None, clock());
    assert_eq!(result.status, "failed");
    assert_eq!(result.error_code, Some(ErrorCode::ErrEpisodeTimeout));
    assert_eq!(result.error_message, "deadline reached");
    assert_eq!(result.metadata.get("terminal_kind").map(String::as_str), Some("timeout"));
}
