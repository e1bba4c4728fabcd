use interlink::admin;
use interlink::admin::{AdminAction, AdminServer};

fn answer(server: &AdminServer, request: &[u8]) -> &'static str {
    admin::response(server.handle_request(request)).unwrap_or("")
}

#[test]
fn a_health_probe_is_always_answered() {
    let mut server = AdminServer::new();
    assert_eq!(server.port, 4192);
    let response = answer(&server, b"GET /healthz HTTP/1.1\r\n\r\n");
    assert!(response.starts_with("HTTP/1.1 200 OK"));
    assert!(response.ends_with("\r\n\r\nok"));
    server.set_ready(false);
    assert_eq!(answer(&server, b"GET /healthz"), response);
}

#[test]
fn a_readiness_probe_tells_whether_traffic_is_accepted() {
    let mut server = AdminServer::default().with_port(8080);
    assert_eq!(server.port, 8080);
    assert!(answer(&server, b"GET /readyz HTTP/1.1\r\n\r\n").ends_with("\r\n\r\nready"));
    server.set_ready(false);
    let response = answer(&server, b"GET /readyz HTTP/1.1\r\n\r\n");
    assert!(response.starts_with("HTTP/1.1 503 Service Unavailable"));
    assert!(response.ends_with("\r\n\r\nnot ready"));
}

#[test]
fn a_reload_needs_something_that_reloads() {
    let request = b"POST /reload HTTP/1.1\r\n\r\n";
    let server = AdminServer::new();
    assert!(answer(&server, request).starts_with("HTTP/1.1 503 Service Unavailable\r\n"));
    let server = server.with_reload_handler();
    assert_eq!(server.handle_request(request), AdminAction::Reload);
    assert!(admin::reload_response(true).starts_with("HTTP/1.1 200 OK\r\n"));
    assert!(admin::reload_response(false).starts_with("HTTP/1.1 500 Internal Server Error\r\n"));
    assert_eq!(admin::response(AdminAction::Reload), None);
}

#[test]
fn only_the_first_line_counts() {
    let server = AdminServer::new();
    for request in [
        b"GET /other HTTP/1.1\r\n\r\n".as_slice(),
        b"POST /healthz HTTP/1.1\r\n\r\n",
        b"GET /reload HTTP/1.1\r\n\r\n",
        b"get /healthz HTTP/1.1\r\n\r\n",
        b"GET /healthzz",
        b"GET",
        b"\nGET /healthz",
        b"GET\n/healthz",
    ] {
        assert_eq!(server.handle_request(request), AdminAction::NotFound);
    }
    assert_eq!(server.handle_request(b"  GET\t\t/healthz"), AdminAction::Alive);
    assert_eq!(server.handle_request(b"GET \x0c/readyz\r\n"), AdminAction::Ready);
    assert_eq!(server.handle_request(b""), AdminAction::Hang);
    assert_eq!(admin::response(AdminAction::Hang), None);
}

#[test]
fn responses_declare_the_length_of_their_body() {
    for response in [
        admin::HEALTH_RESPONSE,
        admin::READY_RESPONSE,
        admin::NOT_READY_RESPONSE,
        admin::RELOAD_RESPONSE,
        admin::RELOAD_FAILED_RESPONSE,
        admin::RELOAD_UNAVAILABLE_RESPONSE,
        admin::NOT_FOUND_RESPONSE,
    ] {
        let (head, body) = response.split_once("\r\n\r\n").unwrap();
        assert!(head.contains(&format!("Content-Length: {}\r\n", body.len())));
    }
}
