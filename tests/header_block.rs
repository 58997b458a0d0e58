use http_socks_bridge::error::BridgeError;
use http_socks_bridge::header::{find_header_end, HeaderReader, ReadStep, MAX_HEADER_BYTES};

#[test]
fn header_end_is_offset_plus_four() {
    let buf = b"GET / HTTP/1.1\r\nHost: a\r\n\r\nbody";
    assert_eq!(find_header_end(buf), Some(27));
}

#[test]
fn header_end_at_offset_zero() {
    assert_eq!(find_header_end(b"\r\n\r\nrest"), Some(4));
}

#[test]
fn header_end_first_terminator_wins() {
    assert_eq!(find_header_end(b"a\r\n\r\n\r\n\r\n"), Some(5));
}

#[test]
fn header_end_absent() {
    assert_eq!(find_header_end(b"GET / HTTP/1.1\r\nHost: a\r\n\r"), None);
    assert_eq!(find_header_end(b""), None);
    assert_eq!(find_header_end(b"\r\n"), None);
}

#[test]
fn reader_completes_across_reads() {
    let mut r = HeaderReader::new();
    assert_eq!(r.push(b"GET / HTTP/1.1\r\n"), ReadStep::NeedMore);
    assert_eq!(r.push(b"Host: a\r"), ReadStep::NeedMore);
    assert_eq!(r.push(b"\n\r\nxyz"), ReadStep::Complete(27));
    assert_eq!(r.buffer(), b"GET / HTTP/1.1\r\nHost: a\r\n\r\nxyz");
}

#[test]
fn reader_terminator_split_over_reads() {
    let mut r = HeaderReader::new();
    assert_eq!(r.push(b"GET / HTTP/1.1\r\n\r"), ReadStep::NeedMore);
    assert_eq!(r.push(b"\n"), ReadStep::Complete(18));
}

#[test]
fn reader_peer_closed_early() {
    let mut r = HeaderReader::new();
    assert_eq!(r.push(b"GET / HTTP/1.1\r\n"), ReadStep::NeedMore);
    assert_eq!(r.push(b""), ReadStep::Failed(BridgeError::IncompleteRequest));
}

#[test]
fn reader_rejects_oversized_headers() {
    let mut r = HeaderReader::new();
    let chunk = vec![b'a'; 4096];
    let mut steps = Vec::new();
    for _ in 0..8 {
        steps.push(r.push(&chunk));
    }
    assert!(steps.iter().all(|s| *s == ReadStep::NeedMore));
    assert_eq!(r.buffer().len(), MAX_HEADER_BYTES);
    assert_eq!(r.push(b"a"), ReadStep::Failed(BridgeError::HeadersTooLarge));
}

#[test]
fn reader_accepts_terminator_arriving_past_cap() {
    let mut r = HeaderReader::new();
    let mut first = vec![b'a'; MAX_HEADER_BYTES - 2];
    first.extend_from_slice(b"\r\n");
    assert_eq!(r.push(&first), ReadStep::NeedMore);
    assert_eq!(r.push(b"\r\nbody"), ReadStep::Complete(MAX_HEADER_BYTES + 2));
}
