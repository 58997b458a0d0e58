use http_socks_bridge::relay::{CopyAction, CopyDirection, ReadOutcome, RelaySession, RELAY_BUFFER_BYTES};
use http_socks_bridge::server::{accept_step, AcceptOutcome, BridgeConfig};
use http_socks_bridge::tor::{AsyncTorConnector, Response, TokioMinreqWrapper};
use std::sync::Arc;

#[test]
fn data_is_copied_until_eof() {
    let mut d = CopyDirection::new();
    assert_eq!(d.on_read(ReadOutcome::Data(5)), CopyAction::Write(5));
    assert_eq!(d.on_write(true), CopyAction::Read);
    assert!(!d.is_finished());
    assert_eq!(d.on_read(ReadOutcome::Eof), CopyAction::Shutdown);
    assert!(d.is_finished());
}

#[test]
fn shutdown_happens_once() {
    let mut d = CopyDirection::new();
    assert_eq!(d.on_read(ReadOutcome::Eof), CopyAction::Shutdown);
    assert_eq!(d.on_read(ReadOutcome::Eof), CopyAction::Idle);
    assert_eq!(d.on_read(ReadOutcome::Error), CopyAction::Idle);
    assert_eq!(d.on_write(false), CopyAction::Idle);
    assert_eq!(d.on_read(ReadOutcome::Data(3)), CopyAction::Idle);
}

#[test]
fn errors_finish_a_direction() {
    let mut d = CopyDirection::new();
    assert_eq!(d.on_read(ReadOutcome::Error), CopyAction::Shutdown);
    let mut e = CopyDirection::new();
    assert_eq!(e.on_read(ReadOutcome::Data(RELAY_BUFFER_BYTES)), CopyAction::Write(8192));
    assert_eq!(e.on_write(false), CopyAction::Shutdown);
    let mut z = CopyDirection::new();
    assert_eq!(z.on_read(ReadOutcome::Data(0)), CopyAction::Shutdown);
}

#[test]
fn relay_ends_with_either_direction() {
    let mut s = RelaySession::new();
    assert!(!s.is_over());
    s.server_to_client.on_read(ReadOutcome::Eof);
    assert!(s.is_over());
    assert!(!s.client_to_server.is_finished());
}

#[test]
fn accept_loop_steps() {
    let a = accept_step(AcceptOutcome::Connection, false);
    assert!(a.dispatch && !a.report && !a.stop);
    let b = accept_step(AcceptOutcome::Error, false);
    assert!(!b.dispatch && b.report && !b.stop);
    let c = accept_step(AcceptOutcome::Nothing, true);
    assert!(!c.dispatch && c.stop);
    let d = accept_step(AcceptOutcome::Connection, true);
    assert!(d.dispatch && d.stop);
}

#[test]
fn default_config() {
    let c = BridgeConfig::default();
    assert_eq!(c.http_bind_addr, "127.0.0.1:8118");
    assert_eq!(c.socks_proxy_addr, "127.0.0.1:9050");
}

#[test]
fn tor_clients_keep_their_settings() {
    let w = TokioMinreqWrapper::new("socks5://127.0.0.1:9050".to_string());
    assert_eq!(w.tor_proxy(), "socks5://127.0.0.1:9050");
    let t = Arc::new(7u32);
    let c = AsyncTorConnector::new(t.clone());
    assert!(Arc::ptr_eq(c.transport(), &t));
    let r = Response { status: 200, body: "ok".to_string() };
    assert_eq!((r.status, r.body.as_str()), (200, "ok"));
}
