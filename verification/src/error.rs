//! Errors of the transports.
use vstd::prelude::*;
use crate::rpc::RpcError;

verus! {

/// The kinds of I/O failure that the transports report.
#[derive(Debug, Clone, Copy, PartialEq, Eq, Structural)]
pub enum IoErrorKind {
    /// The channel to the connection task is closed.
    BrokenPipe,
    /// The answer to a request will not come: the connection task dropped it.
    TimedOut,
}

/// An error of a transport or of the server it talks to.
#[derive(Debug)]
pub enum Error {
    /// The server's answer could not be understood.
    InvalidResponse(String),
    /// The transport failed.
    Transport(String),
    /// The server answered with a JSON-RPC error.
    Rpc(RpcError),
    /// An I/O failure.
    Io(IoErrorKind),
}

} // verus!
