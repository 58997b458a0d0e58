//! The errors that end a proxied connection.
use vstd::prelude::*;

verus! {

/// Every way in which one proxied connection can fail.
#[derive(Debug, Clone, Copy, PartialEq, Eq, Structural)]
pub enum BridgeError {
    /// The client closed the connection before the header block was complete.
    IncompleteRequest,
    /// More than `MAX_HEADER_BYTES` arrived without a header terminator.
    HeadersTooLarge,
    /// The request line did not have exactly three tokens.
    MalformedRequestLine,
    /// An origin-form request carried no `Host:` header.
    MissingHostHeader,
    /// The request target could not be parsed as an absolute URL.
    InvalidUrl,
    /// The parsed URL has no host.
    MissingUrlHost,
    /// The SOCKS proxy address holds no `:` before a port.
    InvalidProxyAddress,
    /// The target address holds no `:` before a port.
    InvalidTargetAddress,
    /// A port is not a decimal number in `0..=65535`.
    InvalidPort,
    /// A domain name is longer than one SOCKS length byte can describe.
    DomainTooLong,
    /// The method-selection reply was not `[0x05, 0x00]`.
    SocksHandshake { version: u8, method: u8 },
    /// The CONNECT reply did not report success.
    SocksConnect { version: u8, reply: u8 },
}

} // verus!
