//! An HTTP proxy that forwards every request through a SOCKS5 proxy.
//!
//! The modules hold the decisions of the bridge; the program around them does the
//! socket work and hands each outcome back.
pub mod error;
pub mod header;
pub mod lines;
pub mod relay;
pub mod request;
pub mod server;
pub mod socks;
pub mod text;
pub mod tor;
