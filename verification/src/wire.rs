//! Wire-level message shapes and the service error taxonomy.
//!
//! Client and server messages are closed, kind-tagged unions; dispatch on them
//! is by exhaustive match, so a new message kind is a compile-time error
//! everywhere it is handled.

use vstd::prelude::*;

verus! {

/// Errors of the single-shot operations and of connection setup.
#[derive(Clone, Copy, Debug, PartialEq, Eq, Structural)]
pub enum ServiceError {
    /// Malformed request: missing fields, empty origin, bad hello grammar.
    InvalidArgument,
    /// Session identifier collision on open.
    AlreadyExists,
    /// Bad or forged token.
    Unauthenticated,
    /// Operation on an unknown session.
    NotFound,
    /// Backend failure; details stay server-side.
    Internal,
}

/// Messages a client sends over an established channel. A heartbeat carries
/// no message at all and is modelled as `None` at the dispatch boundary.
pub enum ClientMessage {
    /// Credentials and optional pane-recovery hints; must come first.
    Hello(Vec<u8>),
    /// A terminal data chunk for one pane, with its sequence number.
    Data { id: u32, seq: u64, data: Vec<u8> },
    /// A new pane was opened client-side at the given position hint.
    CreatedShell { id: u32, x: i32, y: i32 },
    /// A pane was closed client-side.
    ClosedShell(u32),
    /// Reply to a `Ping`, echoing the server's timestamp.
    Pong(u64),
    /// Client-side error report; logged, no state change.
    Error(Vec<u8>),
}

/// Messages the server sends to the attached client.
pub enum ServerMessage {
    /// Per-pane sequence numbers, letting the client detect gaps.
    Sync(Vec<(u32, u64)>),
    /// Server timestamp in epoch milliseconds, for latency measurement.
    Ping(u64),
    /// In-band error notice; non-fatal to the connection.
    Error(Vec<u8>),
}

/// Request of the `Open` operation.
pub struct OpenRequest {
    pub origin: Vec<u8>,
    pub name: Vec<u8>,
    pub write_password_hash: Vec<u8>,
    pub encrypted_zeros: Vec<u8>,
}

/// Response of the `Open` operation.
pub struct OpenResponse {
    /// The session identifier.
    pub name: Vec<u8>,
    /// Credential bound to the session identifier.
    pub token: Vec<u8>,
    /// `origin` + `/s/` + session identifier.
    pub url: Vec<u8>,
}

/// Request of the `Close` operation.
pub struct CloseRequest {
    pub name: Vec<u8>,
    pub token: Vec<u8>,
}

} // verus!
