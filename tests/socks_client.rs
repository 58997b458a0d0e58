use http_socks_bridge::error::BridgeError;
use http_socks_bridge::socks::{
    connect_request, parse_host_port, parse_port, proxy_endpoint, SocksAction, SocksAddress,
    SocksClient,
};

#[test]
fn ipv4_host_selects_ipv4() {
    assert!(matches!(
        SocksAddress::from_host(b"93.184.216.34"),
        Ok(SocksAddress::Ipv4([93, 184, 216, 34]))
    ));
}

#[test]
fn ipv6_host_selects_ipv6() {
    let mut expected = [0u8; 16];
    expected[15] = 1;
    match SocksAddress::from_host(b"::1") {
        Ok(SocksAddress::Ipv6(a)) => assert_eq!(a, expected),
        _ => panic!("expected IPv6"),
    }
}

#[test]
fn other_host_selects_domain() {
    match SocksAddress::from_host(b"example.com") {
        Ok(SocksAddress::Domain(d)) => assert_eq!(d, b"example.com"),
        _ => panic!("expected a domain"),
    }
    let longest = vec![b'a'; 255];
    assert!(matches!(SocksAddress::from_host(&longest), Ok(SocksAddress::Domain(_))));
}

#[test]
fn overlong_domain_is_refused() {
    let name = vec![b'a'; 256];
    assert!(matches!(SocksAddress::from_host(&name), Err(BridgeError::DomainTooLong)));
}

#[test]
fn connect_request_encodings() {
    let d = SocksAddress::Domain(b"ab".to_vec());
    assert_eq!(connect_request(&d, 443), vec![5, 1, 0, 3, 2, b'a', b'b', 1, 187]);
    let v4 = SocksAddress::Ipv4([10, 0, 0, 1]);
    assert_eq!(connect_request(&v4, 80), vec![5, 1, 0, 1, 10, 0, 0, 1, 0, 80]);
    let mut v6 = [0u8; 16];
    v6[0] = 0x20;
    let mut expected = vec![5, 1, 0, 4];
    expected.extend_from_slice(&v6);
    expected.extend_from_slice(&[0x1f, 0x90]);
    assert_eq!(connect_request(&SocksAddress::Ipv6(v6), 8080), expected);
}

#[test]
fn ports() {
    assert_eq!(parse_port(b"80"), Ok(80));
    assert_eq!(parse_port(b"+80"), Ok(80));
    assert_eq!(parse_port(b"0065535"), Ok(65535));
    assert_eq!(parse_port(b"65536"), Err(BridgeError::InvalidPort));
    assert_eq!(parse_port(b"99999999999"), Err(BridgeError::InvalidPort));
    assert_eq!(parse_port(b""), Err(BridgeError::InvalidPort));
    assert_eq!(parse_port(b"+"), Err(BridgeError::InvalidPort));
    assert_eq!(parse_port(b"8a"), Err(BridgeError::InvalidPort));
    assert_eq!(parse_port(b"-1"), Err(BridgeError::InvalidPort));
}

#[test]
fn host_port_pairs() {
    assert_eq!(
        proxy_endpoint(b"127.0.0.1:9050"),
        Ok((b"127.0.0.1".to_vec(), 9050))
    );
    assert_eq!(proxy_endpoint(b"localhost"), Err(BridgeError::InvalidProxyAddress));
    assert_eq!(
        parse_host_port(b"::1:443", BridgeError::InvalidTargetAddress),
        Ok((b"::1".to_vec(), 443))
    );
    assert_eq!(
        parse_host_port(b"[::1]:80", BridgeError::InvalidTargetAddress),
        Ok((b"[::1]".to_vec(), 80))
    );
    assert_eq!(
        parse_host_port(b"example.com", BridgeError::InvalidTargetAddress),
        Err(BridgeError::InvalidTargetAddress)
    );
    assert_eq!(
        parse_host_port(b"a:x", BridgeError::InvalidTargetAddress),
        Err(BridgeError::InvalidPort)
    );
}

fn exchange(a: SocksAction) -> (Vec<u8>, usize) {
    match a {
        SocksAction::Exchange { send, read } => (send, read),
        _ => panic!("expected an exchange"),
    }
}

#[test]
fn successful_negotiation() {
    let mut c = SocksClient::for_target(b"example.com:443").unwrap();
    assert_eq!(exchange(c.start()), (vec![5, 1, 0], 2));
    let (req, n) = exchange(c.receive(&[5, 0]));
    assert_eq!(req, vec![5, 1, 0, 3, 11, b'e', b'x', b'a', b'm', b'p', b'l', b'e', b'.', b'c', b'o', b'm', 1, 187]);
    assert_eq!(n, 10);
    assert!(matches!(c.receive(&[5, 0, 0, 1, 127, 0, 0, 1, 0, 80]), SocksAction::Connected));
}

#[test]
fn ipv6_and_domain_replies_have_tails() {
    let mut c = SocksClient::for_target(b"10.0.0.1:80").unwrap();
    c.start();
    c.receive(&[5, 0]);
    assert!(matches!(c.receive(&[5, 0, 0, 4, 0, 0, 0, 0, 0, 0]), SocksAction::Read(12)));
    assert!(matches!(c.receive(&[0; 12]), SocksAction::Connected));

    let mut d = SocksClient::for_target(b"10.0.0.1:80").unwrap();
    d.start();
    d.receive(&[5, 0]);
    assert!(matches!(d.receive(&[5, 0, 0, 3, 5, b'a', b'b', b'c', b'd', b'e']), SocksAction::Read(6)));
}

#[test]
fn method_reply_failure_is_a_handshake_error() {
    let mut c = SocksClient::for_target(b"example.com:80").unwrap();
    c.start();
    assert!(matches!(
        c.receive(&[5, 0xff]),
        SocksAction::Failed(BridgeError::SocksHandshake { version: 5, method: 0xff })
    ));
    let mut d = SocksClient::for_target(b"example.com:80").unwrap();
    d.start();
    assert!(matches!(
        d.receive(&[4, 0]),
        SocksAction::Failed(BridgeError::SocksHandshake { version: 4, method: 0 })
    ));
}

#[test]
fn connect_reply_failure_is_a_connect_error() {
    let mut c = SocksClient::for_target(b"example.com:80").unwrap();
    c.start();
    c.receive(&[5, 0]);
    assert!(matches!(
        c.receive(&[5, 5, 0, 1, 0, 0, 0, 0, 0, 0]),
        SocksAction::Failed(BridgeError::SocksConnect { version: 5, reply: 5 })
    ));
}

fn ipv6_loopback_request() -> Vec<u8> {
    let mut expected = vec![5, 1, 0, 4];
    expected.extend_from_slice(&[0u8; 15]);
    expected.push(1);
    expected.extend_from_slice(&[0x01, 0xbb]);
    expected
}

fn request_of(c: Result<SocksClient, BridgeError>) -> Vec<u8> {
    let mut c = c.expect("negotiation");
    c.start();
    exchange(c.receive(&[5, 0])).0
}

#[test]
fn ipv6_hosts_reach_the_ipv6_request() {
    assert_eq!(request_of(SocksClient::for_host(b"::1", 443)), ipv6_loopback_request());
    assert_eq!(request_of(SocksClient::for_host(b"[::1]", 443)), ipv6_loopback_request());
    assert_eq!(request_of(SocksClient::for_target(b"::1:443")), ipv6_loopback_request());
    assert_eq!(request_of(SocksClient::for_target(b"[::1]:443")), ipv6_loopback_request());
}

#[test]
fn targets_without_a_port() {
    assert!(matches!(
        SocksClient::for_target(b"example.com"),
        Err(BridgeError::InvalidTargetAddress)
    ));
    assert!(matches!(SocksClient::for_target(b"example.com:http"), Err(BridgeError::InvalidPort)));
    assert!(SocksClient::for_host(b"example.com", 80).is_ok());
}

#[test]
fn ipv4_notation_is_strict() {
    assert!(matches!(SocksAddress::from_host(b"0.0.0.0"), Ok(SocksAddress::Ipv4([0, 0, 0, 0]))));
    assert!(matches!(
        SocksAddress::from_host(b"255.255.255.255"),
        Ok(SocksAddress::Ipv4([255, 255, 255, 255]))
    ));
    for h in [&b"01.2.3.4"[..], b"256.1.1.1", b"1.2.3", b"1.2.3.4.5", b"1..3.4", b"1.2.3.4 ", b"1234.1.1.1"] {
        assert!(matches!(SocksAddress::from_host(h), Ok(SocksAddress::Domain(_))), "{:?}", h);
    }
}
