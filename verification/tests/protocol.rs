use interlink::common::error::InterlinkError;
use interlink::protocol::{validate_http11_request_line, DetectedProtocol, ProtocolDetector};

#[test]
fn test_detect_http2_preface() {
    let preface = b"PRI * HTTP/2.0\r\n\r\nSM\r\n\r\n";
    assert_eq!(ProtocolDetector::detect(preface), DetectedProtocol::Http2);
}

#[test]
fn test_detect_http11_get() {
    let req = b"GET /api/v1/users HTTP/1.1\r\nHost: example.com\r\n";
    assert_eq!(ProtocolDetector::detect(req), DetectedProtocol::Http11);
}

#[test]
fn test_detect_http11_post() {
    let req = b"POST /submit HTTP/1.1\r\nHost: example.com\r\n";
    assert_eq!(ProtocolDetector::detect(req), DetectedProtocol::Http11);
}

#[test]
fn test_detect_http11_patch() {
    let req = b"PATCH /resource HTTP/1.1\r\n";
    assert_eq!(ProtocolDetector::detect(req), DetectedProtocol::Http11);
}

#[test]
fn test_detect_tcp_fallback() {
    let data = b"\x00\x01\x02\x03\x04\x05\x06\x07";
    assert_eq!(ProtocolDetector::detect(data), DetectedProtocol::Tcp);
}

#[test]
fn test_detect_empty_buffer() {
    assert_eq!(ProtocolDetector::detect(b""), DetectedProtocol::Tcp);
    assert_eq!(ProtocolDetector::detect(b"SHORT"), DetectedProtocol::Tcp);
}

#[test]
fn test_validate_http11_get() {
    let result = validate_http11_request_line(b"GET /index.html HTTP/1.1\r");
    assert!(result.is_ok());
}

#[test]
fn test_validate_http11_missing_version() {
    let result = validate_http11_request_line(b"GET /index.html");
    assert!(result.is_err());
}

#[test]
fn test_validate_http11_bad_method() {
    let result = validate_http11_request_line(b"get /index.html HTTP/1.1\r");
    assert!(result.is_err());
}

#[test]
fn test_validate_http11_h2_version() {
    let result = validate_http11_request_line(b"GET / HTTP/2.0\r");
    assert!(result.is_err());
}

#[test]
fn test_protocol_detection_all_formats() {
    fn check(input: &[u8], expected: DetectedProtocol) {
        assert_eq!(ProtocolDetector::detect(input), expected);
    }

    check(b"GET / HTTP/1.1\r\n", DetectedProtocol::Http11);
    check(b"POST /api HTTP/1.1\r\n", DetectedProtocol::Http11);
    check(b"PUT /resource HTTP/1.1\r\n", DetectedProtocol::Http11);
    check(b"DELETE /resource HTTP/1.1\r\n", DetectedProtocol::Http11);
    check(b"PATCH /resource HTTP/1.1\r\n", DetectedProtocol::Http11);
    check(b"HEAD /resource HTTP/1.1\r\n", DetectedProtocol::Http11);
    check(b"OPTIONS / HTTP/1.1\r\n", DetectedProtocol::Http11);
    check(b"PRI * HTTP/2.0\r\n\r\nSM\r\n\r\n", DetectedProtocol::Http2);
    check(b"\x00\x01\x02\x03\x04\x05\x06\x07", DetectedProtocol::Tcp);
    check(b"", DetectedProtocol::Tcp);
}

#[test]
fn test_protocol_detection_all_methods() {
    let methods: &[&[u8]] = &[
        b"GET", b"POST", b"PUT", b"DELETE", b"HEAD", b"PATCH", b"OPTIONS", b"TRACE", b"CONNECT",
    ];
    for method in methods {
        let mut req = method.to_vec();
        req.extend_from_slice(b" / HTTP/1.1\r\n");
        assert_eq!(
            ProtocolDetector::detect(&req),
            DetectedProtocol::Http11,
            "method {:?} should be HTTP/1.1",
            std::str::from_utf8(method).unwrap()
        );
    }

    // HTTP/2
    assert_eq!(
        ProtocolDetector::detect(b"PRI * HTTP/2.0\r\n\r\nSM\r\n\r\n"),
        DetectedProtocol::Http2
    );

    // TCP fallback
    assert_eq!(
        ProtocolDetector::detect(b"\x00\x01\x02\x03"),
        DetectedProtocol::Tcp
    );
}

#[test]
fn test_proto_detection_edge_cases() {
    assert_eq!(ProtocolDetector::detect(b""), DetectedProtocol::Tcp);
    assert_eq!(ProtocolDetector::detect(b"12345678"), DetectedProtocol::Tcp);
}

#[test]
fn what_no_method_opens_is_raw_tcp() {
    for data in [
        b"GET /".as_slice(),
        b"GETTINGX",
        b"GE / HTTP/1.1",
        b"OVERLONG / HTTP/1.1",
        b"get / HTTP/1.1",
        b"BREW /pot HTCPCP/1.0",
        b"PRI * HTTP/3.0",
        b"PRI * HT",
    ] {
        assert_eq!(ProtocolDetector::detect(data), DetectedProtocol::Tcp);
    }
    assert_eq!(ProtocolDetector::detect(b"GET / HT"), DetectedProtocol::Http11);
}

#[test]
fn each_malformed_request_line_has_its_error() {
    let error = |line: &[u8]| match validate_http11_request_line(line) {
        Err(InterlinkError::Protocol(message)) => message,
        other => panic!("{other:?}"),
    };
    assert_eq!(error(b""), "invalid request-line: need 3 parts");
    assert_eq!(error(b"GET /index.html"), "invalid request-line: need 3 parts");
    assert_eq!(error(b" / HTTP/1.1"), "invalid method token");
    assert_eq!(error(b"Get / HTTP/1.1"), "invalid method token");
    assert_eq!(error(b"GET  HTTP/1.1"), "empty request-target");
    assert_eq!(error(b"GET / HTTP/2.0"), "unsupported HTTP version");
    assert_eq!(error(b"GET / HTTP/1.1 "), "unsupported HTTP version");
    assert_eq!(error(b"GET / HTTP/1.1\r\r"), "unsupported HTTP version");
    assert!(validate_http11_request_line(b"HEAD / HTTP/1.0").is_ok());
    assert!(validate_http11_request_line(b"M-SEARCH * HTTP/1.1\r").is_ok());
}
