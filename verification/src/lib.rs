//! The transport-security layer of a peer-to-peer networking protocol: an
//! authenticated, encrypted, length-framed byte stream carried over a raw
//! connection.
//!
//! The crate holds the session state machine ([`session`]), the wire
//! framing and authentication codec ([`codec`]), and the construction of
//! the Hello payload that completes the handshake ([`hello`]). The stream
//! cipher, running hash and block cipher the codec rests on are reached
//! through the trusted boundary in [`crypto`]; everything else is verified
//! against the contracts stated there. The elliptic-curve key exchange that
//! derives the session's symmetric key material is an external
//! collaborator: the session consumes only its output, handed in as plain
//! byte values.

use vstd::prelude::*;

pub mod codec;
pub mod crypto;
pub mod hello;
pub mod session;

verus! {

/// The wire protocol version this client declares in its Hello.
pub const PROTOCOL_VERSION: u8 = 5;

} // verus!
