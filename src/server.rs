//! Configuration of the bridge and the decisions of its accept loop.
use vstd::prelude::*;

verus! {

/// Where the bridge listens and where it sends its traffic.
pub struct BridgeConfig {
    /// Local `host:port` on which the HTTP proxy listens.
    pub http_bind_addr: String,
    /// `host:port` of the SOCKS5 proxy.
    pub socks_proxy_addr: String,
}

impl Default for BridgeConfig {
    fn default() -> (r: Self)
        ensures
            r.http_bind_addr@ == "127.0.0.1:8118"@,
            r.socks_proxy_addr@ == "127.0.0.1:9050"@,
    {
        BridgeConfig {
            http_bind_addr: "127.0.0.1:8118".to_owned(),
            socks_proxy_addr: "127.0.0.1:9050".to_owned(),
        }
    }
}

/// What the accept loop saw since its last step.
#[derive(Debug, Clone, Copy, PartialEq, Eq, Structural)]
pub enum AcceptOutcome {
    /// A connection was accepted.
    Connection,
    /// Accepting failed.
    Error,
    /// No connection: the loop woke for the shutdown signal alone.
    Nothing,
}

/// What the accept loop does next.
#[derive(Debug, Clone, Copy, PartialEq, Eq, Structural)]
pub struct AcceptDecision {
    /// Hand the accepted connection to a handler of its own.
    pub dispatch: bool,
    /// Record the accept error and go on.
    pub report: bool,
    /// Stop accepting.
    pub stop: bool,
}

/// One step of the accept loop. An accepted connection is always dispatched, an
/// accept error never stops the loop, and the loop stops once shutdown is signalled.
pub fn accept_step(outcome: AcceptOutcome, shutdown: bool) -> (r: AcceptDecision)
    ensures
        r.dispatch == (outcome == AcceptOutcome::Connection),
        r.report == (outcome == AcceptOutcome::Error),
        r.stop == shutdown,
{
    AcceptDecision {
        dispatch: outcome == AcceptOutcome::Connection,
        report: outcome == AcceptOutcome::Error,
        stop: shutdown,
    }
}

} // verus!
