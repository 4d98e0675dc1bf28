use uenv_server::obs_ingest::{bearer_token, request_authorized};

#[test]
fn bearer_token_reads_either_case_and_trims() {
    assert_eq!(bearer_token("  Bearer  secret  "), Some("secret"));
    assert_eq!(bearer_token("bearer t"), Some("t"));
    assert_eq!(bearer_token("Basic abc"), None);
    assert_eq!(bearer_token("Bearer"), None);
}

#[test]
fn no_configured_token_lets_every_request_through() {
    assert!(request_authorized(None, None, None, None));
    assert!(request_authorized(Some(""), None, None, None));
}

#[test]
fn configured_token_is_accepted_from_query_header_or_obs_header() {
    assert!(!request_authorized(Some("s3"), None, None, None));
    assert!(request_authorized(Some("s3"), Some("s3"), None, None));
    assert!(request_authorized(Some("s3"), None, Some("Bearer s3"), None));
    assert!(request_authorized(Some("s3"), None, None, Some("s3")));
    assert!(!request_authorized(Some("s3"), Some("x"), Some("Bearer x"), Some("x")));
    assert!(!request_authorized(Some("s3"), None, None, Some(" s3")));
}
