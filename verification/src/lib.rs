//! Server-side session-synchronization core for a collaborative terminal
//! service: session identity and registry, token-based authentication, the
//! per-connection streaming protocol state machine, and pane recovery on
//! reconnect.
//!
//! Protocol strings travel as UTF-8 bytes (`Vec<u8>`); every delimiter the
//! grammars use is a single ASCII byte, so byte-level parsing agrees with
//! character-level parsing.

pub mod bytes;
pub mod grpc;
pub mod handler;
pub mod metadata;
pub mod registry;
pub mod session;
pub mod token;
pub mod wire;

use vstd::prelude::*;

verus! {

/// Milliseconds since the UNIX epoch, truncated to a `u64`.
/// Relies on std's `SystemTime::now` and `duration_since`: a clock reading
/// before the epoch is taken as zero rather than a failure.
#[verifier::external_body]
pub fn get_time_ms() -> u64 {
    match std::time::SystemTime::now().duration_since(std::time::SystemTime::UNIX_EPOCH) {
        Ok(d) => d.as_millis() as u64,
        Err(_) => 0,
    }
}

} // verus!
