//! Payload-typed packet forms: the shapes of the wire packets once their
//! payload bytes have been decoded to values of the serializer's type, for
//! code that works above the codec.

use vstd::prelude::*;

verus! {

/// The payload encodings a packet can declare.
#[derive(Debug)]
pub enum SlackerContentType {
    JSON,
}

/// A request whose arguments are decoded payload values.
#[derive(Debug)]
pub struct SlackerRequest<T> {
    pub version: u8,
    pub serial_id: i32,
    pub content_type: SlackerContentType,
    pub fname: String,
    pub arguments: Vec<T>,
}

/// A response whose result is a decoded payload value.
#[derive(Debug)]
pub struct SlackerResponse<T> {
    pub version: u8,
    pub serial_id: i32,
    pub content_type: SlackerContentType,
    pub code: u8,
    pub result: T,
}

/// An inspection request whose body is text.
#[derive(Debug)]
pub struct SlackerInspectRequest {
    pub version: u8,
    pub serial_id: i32,
    pub request_type: u8,
    pub request_body: String,
}

/// An inspection response whose body is text.
#[derive(Debug)]
pub struct SlackerInspectResponse {
    pub version: u8,
    pub serial_id: i32,
    pub response_body: String,
}

/// An error reply carrying its result code.
#[derive(Debug)]
pub struct SlackerError {
    pub version: u8,
    pub serial_id: i32,
    pub code: u8,
}

/// A liveness probe.
#[derive(Debug)]
pub struct SlackerPing {
    pub version: u8,
}

/// The answer to a liveness probe.
#[derive(Debug)]
pub struct SlackerPong {
    pub version: u8,
}

/// A packet whose payloads are decoded values.
#[derive(Debug)]
pub enum SlackerPacket<T> {
    Request(SlackerRequest<T>),
    Response(SlackerResponse<T>),
    Error(SlackerError),
    Ping(SlackerPing),
    Pong(SlackerPong),
    InspectRequest(SlackerInspectRequest),
    InspectResponse(SlackerInspectResponse),
}

} // verus!
