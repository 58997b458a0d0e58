use http_socks_bridge::error::BridgeError;
use http_socks_bridge::header::find_header_end;
use http_socks_bridge::lines::extract_host_header;
use http_socks_bridge::request::{
    connect_established, connect_failed, forward_failed, parse_request_line, plan_request,
    tunnel_reply,
    ForwardPlan, RequestPlan,
};

fn plan(raw: &[u8]) -> Result<RequestPlan, BridgeError> {
    let end = find_header_end(raw).expect("header block");
    plan_request(raw, end)
}

fn forward(raw: &[u8]) -> ForwardPlan {
    match plan(raw) {
        Ok(RequestPlan::Forward(f)) => f,
        Ok(RequestPlan::Tunnel { .. }) => panic!("expected a forwarded request"),
        Err(e) => panic!("unexpected error {:?}", e),
    }
}

#[test]
fn absolute_get_is_rewritten_to_origin_form() {
    let f = forward(b"GET http://example.com/ HTTP/1.1\r\nHost: example.com\r\n\r\n");
    assert_eq!(f.host, b"example.com");
    assert_eq!(f.port, 80);
    assert_eq!(f.version, b"HTTP/1.1");
    assert!(f.request.starts_with(b"GET / HTTP/1.1\r\nHost: example.com\r\n"));
    assert_eq!(
        f.request,
        b"GET / HTTP/1.1\r\nHost: example.com\r\nConnection: close\r\n\r\n".to_vec()
    );
}

#[test]
fn proxy_and_connection_headers_are_dropped() {
    let f = forward(
        b"GET http://example.com/path?q=1 HTTP/1.1\r\nHost: example.com\r\nConnection: keep-alive\r\nPROXY-Authorization: x\r\nproxy-connection: y\r\nAccept: */*\r\n\r\n",
    );
    assert_eq!(
        f.request,
        b"GET /path?q=1 HTTP/1.1\r\nHost: example.com\r\nAccept: */*\r\nConnection: close\r\n\r\n"
            .to_vec()
    );
}

#[test]
fn explicit_port_and_https_default() {
    let f = forward(b"GET http://example.com:8080/a HTTP/1.0\r\n\r\n");
    assert_eq!(f.port, 8080);
    assert_eq!(f.request, b"GET /a HTTP/1.0\r\nConnection: close\r\n\r\n".to_vec());
    let g = forward(b"GET https://example.com/ HTTP/1.1\r\n\r\n");
    assert_eq!(g.port, 443);
}

#[test]
fn origin_form_uses_host_header() {
    let f = forward(b"GET /x?y HTTP/1.1\r\nhost:  example.org:8080 \r\n\r\n");
    assert_eq!(f.host, b"example.org");
    assert_eq!(f.port, 8080);
    assert!(f.request.starts_with(b"GET /x?y HTTP/1.1\r\nhost:  example.org:8080 \r\n"));
}

#[test]
fn origin_form_port_443_means_https() {
    let f = forward(b"GET / HTTP/1.1\r\nHost: example.org:443\r\n\r\n");
    assert_eq!(f.host, b"example.org");
    assert_eq!(f.port, 443);
}

#[test]
fn body_bytes_already_read_are_forwarded() {
    let f = forward(b"POST http://example.com/p HTTP/1.1\r\nContent-Length: 5\r\n\r\nhello");
    assert_eq!(
        f.request,
        b"POST /p HTTP/1.1\r\nContent-Length: 5\r\nConnection: close\r\n\r\nhello".to_vec()
    );
}

#[test]
fn invalid_utf8_header_is_decoded_lossily() {
    let f = forward(b"GET http://example.com/ HTTP/1.1\r\nX: \xff\r\n\r\n");
    assert_eq!(
        f.request,
        b"GET / HTTP/1.1\r\nX: \xef\xbf\xbd\r\nConnection: close\r\n\r\n".to_vec()
    );
}

#[test]
fn connect_is_a_tunnel() {
    match plan(b"CONNECT example.com:443 HTTP/1.1\r\nHost: example.com:443\r\n\r\n") {
        Ok(RequestPlan::Tunnel { target }) => assert_eq!(target, b"example.com:443"),
        _ => panic!("expected a tunnel"),
    }
}

#[test]
fn malformed_request_line() {
    assert!(matches!(plan(b"GET /\r\n\r\n"), Err(BridgeError::MalformedRequestLine)));
    assert!(matches!(plan(b"\r\n\r\n"), Err(BridgeError::MalformedRequestLine)));
    assert!(matches!(plan(b"A B C D\r\n\r\n"), Err(BridgeError::MalformedRequestLine)));
}

#[test]
fn request_line_tokens() {
    let l = parse_request_line(b"GET \t /a  HTTP/1.1\r\nHost: x\r\n\r\n").unwrap();
    assert_eq!(l.method, b"GET");
    assert_eq!(l.target, b"/a");
    assert_eq!(l.version, b"HTTP/1.1");
}

#[test]
fn missing_host_header() {
    assert!(matches!(
        plan(b"GET /x HTTP/1.1\r\nAccept: */*\r\n\r\n"),
        Err(BridgeError::MissingHostHeader)
    ));
}

#[test]
fn unparsable_url() {
    assert!(matches!(plan(b"GET http:// HTTP/1.1\r\n\r\n"), Err(BridgeError::InvalidUrl)));
}

#[test]
fn host_header_lookup() {
    assert_eq!(extract_host_header(b"GET / HTTP/1.1\r\nHOST:   a.b  \r\n\r\n"), Some(b"a.b".to_vec()));
    assert_eq!(extract_host_header(b"GET / HTTP/1.1\r\nX-Host: a\r\n\r\n"), None);
    assert_eq!(extract_host_header(b"host:z"), Some(b"z".to_vec()));
}

#[test]
fn synthetic_responses() {
    assert_eq!(
        connect_established(),
        b"HTTP/1.1 200 Connection Established\r\nConnection: close\r\n\r\n".to_vec()
    );
    assert_eq!(connect_failed(), b"HTTP/1.1 502 Bad Gateway\r\nConnection: close\r\n\r\n".to_vec());
    assert_eq!(
        forward_failed(b"HTTP/1.0", b"refused"),
        b"HTTP/1.0 502 Bad Gateway\r\nContent-Type: text/plain\r\nConnection: close\r\n\r\nFailed to connect to target server: refused\r\n".to_vec()
    );
}

#[test]
fn tunnel_replies() {
    assert_eq!(
        tunnel_reply(true),
        b"HTTP/1.1 200 Connection Established\r\nConnection: close\r\n\r\n".to_vec()
    );
    assert_eq!(
        tunnel_reply(false),
        b"HTTP/1.1 502 Bad Gateway\r\nConnection: close\r\n\r\n".to_vec()
    );
}

#[test]
fn unicode_whitespace_separates_and_trims() {
    let l = parse_request_line("GET\u{a0}/a\u{3000}HTTP/1.1\r\n\r\n".as_bytes()).unwrap();
    assert_eq!(l.method, b"GET");
    assert_eq!(l.target, b"/a");
    assert_eq!(l.version, b"HTTP/1.1");
    assert_eq!(
        extract_host_header("Host:\u{2003} a.b\u{85}\r\n".as_bytes()),
        Some(b"a.b".to_vec())
    );
    assert_eq!(
        extract_host_header("Host: a\u{e9}\r\n".as_bytes()),
        Some("a\u{e9}".as_bytes().to_vec())
    );
}
