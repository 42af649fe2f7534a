//! The failures that end a connection or stop a peer at startup.
use vstd::prelude::*;

verus! {

/// Every failure the protocol reports. None is retried: each one ends the
/// connection attempt or the process.
#[derive(Debug, Clone, Copy, PartialEq, Eq, Structural)]
pub enum StreamError {
    /// Memory registration was refused.
    Allocation,
    /// The control-plane exchange was cut short or malformed.
    Handshake,
    /// An operation came out of the queue pair's state order.
    InvalidState,
    /// A posted work request completed with a failure status.
    Completion,
    /// The startup parameters are unusable (no frames).
    Configuration,
    /// A frame does not fit the buffer it is meant for.
    BufferSize,
    /// A byte access fell outside a region.
    OutOfBounds,
}

} // verus!
