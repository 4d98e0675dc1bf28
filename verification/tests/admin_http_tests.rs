use uenv_server::admin_http::{admin_http_response, admin_http_route, AdminRoute};

fn route(req: &str, token: &str, ready: bool) -> AdminRoute {
    admin_http_route(&req.as_bytes().to_vec(), token, ready)
}

#[test]
fn health_needs_no_token_and_reports_readiness() {
    assert_eq!(route("GET /health HTTP/1.1\r\nHost: x\r\n\r\n", "s3", true), AdminRoute::HealthOk);
    assert_eq!(route("GET /health/ HTTP/1.1\r\n\r\n", "s3", false), AdminRoute::HealthNotReady);
}

#[test]
fn views_need_the_token_when_one_is_configured() {
    assert_eq!(route("GET /agents HTTP/1.1\r\n\r\n", "s3", true), AdminRoute::Unauthorized);
    assert_eq!(route("GET /agents HTTP/1.1\r\nAuthorization: Bearer S3\r\n\r\n", "s3", true), AdminRoute::Agents);
    assert_eq!(route("GET /status HTTP/1.1\r\nX-Admin-Token: s3\r\n\r\n", "s3", true), AdminRoute::Status);
    assert_eq!(route("GET /status HTTP/1.1\r\nX-Admin-Token:  s3\r\n\r\n", "s3", true), AdminRoute::Unauthorized);
    assert_eq!(route("GET /agents HTTP/1.1\r\n\r\n", "", true), AdminRoute::Agents);
}

#[test]
fn unknown_paths_and_odd_requests_get_the_status_view() {
    assert_eq!(route("GET / HTTP/1.1\r\n\r\n", "", true), AdminRoute::Status);
    assert_eq!(route("GET /other HTTP/1.1\r\n\r\n", "", true), AdminRoute::Status);
    assert_eq!(route("", "", true), AdminRoute::Status);
    assert_eq!(route("GET", "", true), AdminRoute::Status);
    assert_eq!(admin_http_route(&vec![0xff, 0xfe], "", true), AdminRoute::Status);
    assert_eq!(admin_http_route(&vec![0xff, 0xfe], "s3", true), AdminRoute::Unauthorized);
    assert_eq!(route("GET /agents//", "", true), AdminRoute::Agents);
}

#[test]
fn token_line_is_matched_as_a_whole_line() {
    assert_eq!(route("GET /agents HTTP/1.1\nx-admin-token: s3", "s3", true), AdminRoute::Agents);
    assert_eq!(route("GET /agents HTTP/1.1\nx-admin-token: s3\r", "s3", true), AdminRoute::Unauthorized);
}

#[test]
fn replies_carry_status_type_and_length() {
    assert_eq!(
        admin_http_response(AdminRoute::Unauthorized, "{}"),
        "HTTP/1.1 401 Unauthorized\r\nContent-Type: text/plain\r\nContent-Length: 12\r\n\r\nunauthorized"
    );
    assert_eq!(
        admin_http_response(AdminRoute::HealthNotReady, ""),
        "HTTP/1.1 503 Service Unavailable\r\nContent-Type: text/plain\r\nContent-Length: 21\r\n\r\npersistence_not_ready"
    );
    assert_eq!(
        admin_http_response(AdminRoute::Agents, "{\"a\":\"é\"}"),
        "HTTP/1.1 200 OK\r\nContent-Type: application/json\r\nContent-Length: 10\r\n\r\n{\"a\":\"é\"}"
    );
}
