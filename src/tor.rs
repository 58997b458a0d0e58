//! Client settings for fetching pages over Tor.
use vstd::prelude::*;

use std::sync::Arc;

verus! {

/// The outcome of an HTTP request made over a Tor transport.
pub struct Response {
    pub status: u16,
    pub body: String,
}

/// A GET client that runs a blocking HTTP client through a Tor SOCKS proxy.
pub struct TokioMinreqWrapper {
    tor_proxy: String,
}

impl TokioMinreqWrapper {
    pub fn new(tor_proxy: String) -> (r: TokioMinreqWrapper)
        ensures
            r.proxy() == tor_proxy@,
    {
        TokioMinreqWrapper { tor_proxy }
    }

    pub closed spec fn proxy(&self) -> Seq<char> {
        self.tor_proxy@
    }

    /// The proxy address requests go through.
    pub fn tor_proxy(&self) -> (r: &str)
        ensures
            r@ == self.proxy(),
    {
        self.tor_proxy.as_str()
    }
}

/// A GET client over a pluggable Tor transport.
pub struct AsyncTorConnector<T> {
    transport: Arc<T>,
}

impl<T> AsyncTorConnector<T> {
    pub fn new(transport: Arc<T>) -> (r: AsyncTorConnector<T>)
        ensures
            r.shared() == transport,
    {
        AsyncTorConnector { transport }
    }

    pub closed spec fn shared(&self) -> Arc<T> {
        self.transport
    }

    /// The transport requests go through.
    pub fn transport(&self) -> (r: &Arc<T>)
        ensures
            *r == self.shared(),
    {
        &self.transport
    }
}

} // verus!
