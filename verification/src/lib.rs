//! Client side of the gateway protocol of a mix network: the wire frames, the
//! authenticated envelopes around them, the registration and authentication
//! state machines, credential submission and the session pipeline.

pub mod address;
pub mod authenticator;
pub mod bytes;
pub mod client;
pub mod codec;
pub mod credential;
pub mod errors;
pub mod handshake;
pub mod iv;
pub mod json;
pub mod packet;
pub mod primitives;
pub mod selection;
pub mod session;
pub mod shared_keys;
pub mod storage;
pub mod text;
pub mod timeouts;
pub mod types;
pub mod wire;

use vstd::prelude::*;

verus! {

/// The protocol version every gateway understands.
pub const INITIAL_PROTOCOL_VERSION: u8 = 1;

/// The protocol version of clients that submit bandwidth credentials.
pub const CURRENT_PROTOCOL_VERSION: u8 = 2;

} // verus!
