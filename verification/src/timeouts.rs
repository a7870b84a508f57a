//! How long each step of a session may take.

use vstd::prelude::*;

verus! {

/// A step that waits on the gateway or on the transport.
#[derive(Debug, Clone, Copy, PartialEq, Eq, Structural)]
pub enum Phase {
    /// One round trip of the registration handshake.
    Handshake,
    /// The round trip of an authentication.
    Authenticate,
    /// The submission of a credential.
    Credential,
    /// Waiting for the next inbound frame.
    InboundRead,
    /// Writing an outbound frame.
    OutboundWrite,
    /// Waiting for both directions to end after a cancellation.
    Cancellation,
}

/// The time a phase may take in milliseconds; none for a phase that waits as
/// long as it must.
pub open spec fn timeout_of(phase: Phase) -> Option<u64> {
    match phase {
        Phase::Handshake => Some(30_000u64),
        Phase::Authenticate => Some(10_000u64),
        Phase::Credential => Some(30_000u64),
        Phase::InboundRead => None,
        Phase::OutboundWrite => Some(30_000u64),
        Phase::Cancellation => Some(100u64),
    }
}

/// The time a phase may take in milliseconds. A gateway may be silent for as
/// long as it likes, so reading inbound frames has no limit; a write that
/// takes longer than its limit means that the transport is dead.
pub fn timeout_ms(phase: Phase) -> (limit: Option<u64>)
    ensures
        limit == timeout_of(phase),
{
    match phase {
        Phase::Handshake => Some(30_000),
        Phase::Authenticate => Some(10_000),
        Phase::Credential => Some(30_000),
        Phase::InboundRead => None,
        Phase::OutboundWrite => Some(30_000),
        Phase::Cancellation => Some(100),
    }
}

} // verus!
