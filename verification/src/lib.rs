//! A verified implementation of the Slacker RPC protocol stack: a binary,
//! length-prefixed, request-multiplexed wire protocol carrying JSON payloads.
//!
//! The crate provides the framed codec (packet parsing and serialization),
//! the serial-id correlation table used to multiplex concurrent calls on one
//! connection, and the server dispatch logic, all with machine-checked
//! contracts. Network transport lives outside the library.

use vstd::prelude::*;

pub mod client;
pub mod codecs;
pub mod json;
pub mod laws;
pub mod packets;
pub mod parser;
pub mod serializer;
pub mod service;
pub mod wire;

verus! {

/// The failure kinds of the protocol core.
///
/// `Wire` and `UnsupportedPacket` are fatal to a connection; `Decode`,
/// `NotFound` and `Handler` are scoped to a single request and are carried
/// back inside an Error packet; `Transport` reports socket failure and
/// rejects every call still pending on the connection.
#[derive(Debug, Copy, Clone, PartialEq, Eq, Structural)]
pub enum RpcError {
    /// Malformed framing: unknown packet type.
    Wire,
    /// A payload was present but not decodable as its content type.
    Decode,
    /// No handler is registered under the requested name.
    NotFound,
    /// A handler failed; the failure must not reach the transport.
    Handler,
    /// The underlying byte stream failed or was closed.
    Transport,
    /// A packet arrived in the wrong direction for this endpoint.
    UnsupportedPacket,
}

} // verus!
