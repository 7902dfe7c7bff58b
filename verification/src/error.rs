//! The failures that the client reports, one type per stage.

use vstd::prelude::*;

verus! {

/// Why a URI names no destination that the client can connect to.
#[derive(Clone, Copy, Debug, PartialEq, Eq, Structural)]
pub enum FromUriError {
    /// The text is not a URI.
    InvalidUri,
    /// The URI has no host.
    NoAuthority,
    /// The host is there, but resolving it gave no address.
    NoResolve,
}

/// Why a CONNECT handshake with a forward proxy did not open a tunnel.
#[derive(Clone, Copy, Debug, PartialEq, Eq, Structural)]
pub enum TunnelError {
    /// The proxy closed the stream before its response was complete.
    UnexpectedEof,
    /// The response is not UTF-8, or it reached the size limit unfinished.
    InvalidData,
    /// The proxy sent a complete response whose status is not a success.
    Rejected,
}

/// Why no connection to a destination came about.
#[derive(Debug)]
pub enum ConnectError {
    /// A proxy is configured, but its URL is not a URI with a host.
    ProxyConfig,
    /// The operating system could not open or use the connection.
    Os(std::io::Error),
    /// The proxy did not open a tunnel.
    Tunnel(TunnelError),
    /// An event was reported that the state of the connector did not await.
    OutOfOrder,
}

/// Why a request brought no response.
#[derive(Debug)]
pub enum SendError {
    /// The request's URI names no destination.
    Uri(FromUriError),
    /// No connection to the destination came about.
    Connect(ConnectError),
    /// The request could not be written; the connection is dropped.
    Send,
    /// The connection ended before a response arrived; it is dropped.
    NoResponse,
    /// What arrived is no response; the connection is dropped.
    Receive,
    /// An event was reported that the state of the request did not await.
    OutOfOrder,
}

} // verus!
