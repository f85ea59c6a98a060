//! Wire-level packet types of the Slacker protocol and the verified parser.
//!
//! Every packet starts with a fixed six-byte header (version, big-endian
//! signed serial id, packet type); the packet type selects the body layout.
//! `spec_encode` and `spec_decode` are the mathematical statement of the wire
//! format; the executable parser and encoder are verified against them.

use vstd::prelude::*;

use crate::wire::{
    spec_be_i32, spec_be_u16, spec_be_u32, spec_i32_be, spec_u16_be, spec_u32_be, read_i32_be,
    read_u16_be, read_u32_be,
};

verus! {

pub const PROTOCOL_VERSION_5: u8 = 5;

pub const RESULT_CODE_SUCCESS: u8 = 0;

pub const RESULT_CODE_NOT_FOUND: u8 = 11;

/// Result code sent when a handler fails; the protocol reserves the code
/// space, the exact value is this implementation's choice.
pub const RESULT_CODE_EXCEPTION: u8 = 12;

/// Result code sent when request arguments cannot be decoded as a JSON array.
pub const RESULT_CODE_INVALID_DATA: u8 = 14;

pub const JSON_CONTENT_TYPE: u8 = 1;

pub const PACKET_TYPE_REQUEST: u8 = 0;

pub const PACKET_TYPE_RESPONSE: u8 = 1;

pub const PACKET_TYPE_PING: u8 = 2;

pub const PACKET_TYPE_PONG: u8 = 3;

pub const PACKET_TYPE_ERROR: u8 = 4;

pub const PACKET_TYPE_INSPECT_REQUEST: u8 = 7;

pub const PACKET_TYPE_INSPECT_RESPONSE: u8 = 8;

pub const PACKET_TYPE_INTERRUPT: u8 = 9;

/// The fixed six-byte packet header.
#[derive(Debug, Copy, Clone, PartialEq, Eq, Structural)]
pub struct SlackerPacketHeader {
    pub version: u8,
    pub serial_id: i32,
    pub packet_type: u8,
}

/// Request body: payload encoding tag, function name bytes (UTF-8 of the
/// form `namespace/function`), and the opaque argument bytes.
#[derive(Debug, Clone, PartialEq, Eq)]
pub struct SlackerRequestPacket {
    pub content_type: u8,
    pub fname: Vec<u8>,
    pub arguments: Vec<u8>,
}

/// Response body: payload encoding tag, result code, and the opaque result
/// bytes.
#[derive(Debug, Clone, PartialEq, Eq)]
pub struct SlackerResponsePacket {
    pub content_type: u8,
    pub result_code: u8,
    pub data: Vec<u8>,
}

/// Error body: a bare result code.
#[derive(Debug, Copy, Clone, PartialEq, Eq, Structural)]
pub struct SlackerErrorPacket {
    pub result_code: u8,
}

/// Inspection request body: query tag and opaque query bytes.
#[derive(Debug, Clone, PartialEq, Eq)]
pub struct SlackerInspectRequestPacket {
    pub inspect_type: u8,
    pub data: Vec<u8>,
}

/// Inspection response body: opaque result bytes.
#[derive(Debug, Clone, PartialEq, Eq)]
pub struct SlackerInspectResponsePacket {
    pub data: Vec<u8>,
}

/// Interrupt body: the serial id of the request to cancel.
#[derive(Debug, Copy, Clone, PartialEq, Eq, Structural)]
pub struct SlackerInterruptPacket {
    pub req_id: i32,
}

/// The body of a packet; the variant is selected by the header's packet type.
#[derive(Debug, Clone, PartialEq, Eq)]
pub enum SlackerPacketBody {
    Request(SlackerRequestPacket),
    Response(SlackerResponsePacket),
    Error(SlackerErrorPacket),
    InspectRequest(SlackerInspectRequestPacket),
    InspectResponse(SlackerInspectResponsePacket),
    Interrupt(SlackerInterruptPacket),
    Ping,
    Pong,
}

/// A full packet: header plus body.
#[derive(Debug, Clone, PartialEq, Eq)]
pub struct SlackerPacket(pub SlackerPacketHeader, pub SlackerPacketBody);

/// Mathematical model of a packet body: payloads as byte sequences.
#[verifier::ext_equal]
pub enum BodyModel {
    Request { content_type: u8, fname: Seq<u8>, arguments: Seq<u8> },
    Response { content_type: u8, result_code: u8, data: Seq<u8> },
    Error { result_code: u8 },
    InspectRequest { inspect_type: u8, data: Seq<u8> },
    InspectResponse { data: Seq<u8> },
    Interrupt { req_id: i32 },
    Ping,
    Pong,
}

/// Mathematical model of a packet.
#[verifier::ext_equal]
pub struct PacketModel {
    pub version: u8,
    pub serial_id: i32,
    pub packet_type: u8,
    pub body: BodyModel,
}

impl View for SlackerPacketBody {
    type V = BodyModel;

    open spec fn view(&self) -> BodyModel {
        match self {
            SlackerPacketBody::Request(r) => (BodyModel::Request {
                content_type: r.content_type,
                fname: r.fname@,
                arguments: r.arguments@,
            }),
            SlackerPacketBody::Response(r) => (BodyModel::Response {
                content_type: r.content_type,
                result_code: r.result_code,
                data: r.data@,
            }),
            SlackerPacketBody::Error(e) => (BodyModel::Error { result_code: e.result_code }),
            SlackerPacketBody::InspectRequest(r) => (BodyModel::InspectRequest {
                inspect_type: r.inspect_type,
                data: r.data@,
            }),
            SlackerPacketBody::InspectResponse(r) => (BodyModel::InspectResponse { data: r.data@ }),
            SlackerPacketBody::Interrupt(i) => (BodyModel::Interrupt { req_id: i.req_id }),
            SlackerPacketBody::Ping => BodyModel::Ping,
            SlackerPacketBody::Pong => BodyModel::Pong,
        }
    }
}

impl View for SlackerPacket {
    type V = PacketModel;

    open spec fn view(&self) -> PacketModel {
        PacketModel {
            version: self.0.version,
            serial_id: self.0.serial_id,
            packet_type: self.0.packet_type,
            body: self.1@,
        }
    }
}

/// The packet type code that announces a body of this shape.
pub open spec fn body_tag(b: BodyModel) -> u8 {
    match b {
        BodyModel::Request { .. } => PACKET_TYPE_REQUEST,
        BodyModel::Response { .. } => PACKET_TYPE_RESPONSE,
        BodyModel::Error { .. } => PACKET_TYPE_ERROR,
        BodyModel::InspectRequest { .. } => PACKET_TYPE_INSPECT_REQUEST,
        BodyModel::InspectResponse { .. } => PACKET_TYPE_INSPECT_RESPONSE,
        BodyModel::Interrupt { .. } => PACKET_TYPE_INTERRUPT,
        BodyModel::Ping => PACKET_TYPE_PING,
        BodyModel::Pong => PACKET_TYPE_PONG,
    }
}

/// Payload lengths that fit their wire length prefixes.
pub open spec fn wf_body(b: BodyModel) -> bool {
    match b {
        BodyModel::Request { fname, arguments, .. } => fname.len() <= 0xffff
            && arguments.len() <= 0xffff_ffff,
        BodyModel::Response { data, .. } => data.len() <= 0xffff_ffff,
        BodyModel::InspectRequest { data, .. } => data.len() <= 0xffff,
        BodyModel::InspectResponse { data } => data.len() <= 0xffff,
        _ => true,
    }
}

/// A structurally valid packet: the header's packet type matches the body
/// variant and every payload fits its length prefix.
pub open spec fn wf_packet(p: PacketModel) -> bool {
    p.packet_type == body_tag(p.body) && wf_body(p.body)
}

/// The six header bytes.
pub open spec fn spec_encode_header(p: PacketModel) -> Seq<u8> {
    seq![p.version] + spec_i32_be(p.serial_id) + seq![p.packet_type]
}

/// The body bytes, laid out per the packet type's table.
pub open spec fn spec_encode_body(b: BodyModel) -> Seq<u8> {
    match b {
        BodyModel::Request { content_type, fname, arguments } => seq![content_type]
            + spec_u16_be(fname.len() as u16) + fname + spec_u32_be(arguments.len() as u32)
            + arguments,
        BodyModel::Response { content_type, result_code, data } => seq![content_type, result_code]
            + spec_u32_be(data.len() as u32) + data,
        BodyModel::Error { result_code } => seq![result_code],
        BodyModel::InspectRequest { inspect_type, data } => seq![inspect_type]
            + spec_u16_be(data.len() as u16) + data,
        BodyModel::InspectResponse { data } => spec_u16_be(data.len() as u16) + data,
        BodyModel::Interrupt { req_id } => spec_i32_be(req_id),
        BodyModel::Ping => seq![],
        BodyModel::Pong => seq![],
    }
}

/// The full wire image of a packet.
pub open spec fn spec_encode(p: PacketModel) -> Seq<u8> {
    spec_encode_header(p) + spec_encode_body(p.body)
}

/// Outcome of decoding a byte sequence: one packet and the number of bytes
/// it occupied, a request for more bytes, or a fatal framing error.
#[verifier::ext_equal]
pub enum SpecDecode {
    Done { packet: PacketModel, used: int },
    Incomplete,
    Fail,
}

/// Outcome of decoding a body, given the bytes that follow the header.
#[verifier::ext_equal]
pub enum SpecBodyDecode {
    Done { body: BodyModel, used: int },
    Incomplete,
    Fail,
}

/// Decodes one body of kind `ptype` from the bytes after the header.
pub open spec fn spec_decode_body(ptype: u8, b: Seq<u8>) -> SpecBodyDecode {
    if ptype == PACKET_TYPE_REQUEST {
        if b.len() < 3 {
            SpecBodyDecode::Incomplete
        } else {
            let content_type = b[0];
            let fname_len = spec_be_u16(b.subrange(1, 3)) as int;
            if b.len() < 3 + fname_len + 4 {
                SpecBodyDecode::Incomplete
            } else {
                let fname = b.subrange(3, 3 + fname_len);
                let args_len = spec_be_u32(b.subrange(3 + fname_len, 7 + fname_len)) as int;
                if b.len() < 7 + fname_len + args_len {
                    SpecBodyDecode::Incomplete
                } else {
                    SpecBodyDecode::Done {
                        body: (BodyModel::Request {
                            content_type,
                            fname,
                            arguments: b.subrange(7 + fname_len, 7 + fname_len + args_len),
                        }),
                        used: 7 + fname_len + args_len,
                    }
                }
            }
        }
    } else if ptype == PACKET_TYPE_RESPONSE {
        if b.len() < 6 {
            SpecBodyDecode::Incomplete
        } else {
            let content_type = b[0];
            let result_code = b[1];
            let data_len = spec_be_u32(b.subrange(2, 6)) as int;
            if b.len() < 6 + data_len {
                SpecBodyDecode::Incomplete
            } else {
                SpecBodyDecode::Done {
                    body: (BodyModel::Response {
                        content_type,
                        result_code,
                        data: b.subrange(6, 6 + data_len),
                    }),
                    used: 6 + data_len,
                }
            }
        }
    } else if ptype == PACKET_TYPE_PING {
        SpecBodyDecode::Done { body: BodyModel::Ping, used: 0 }
    } else if ptype == PACKET_TYPE_PONG {
        SpecBodyDecode::Done { body: BodyModel::Pong, used: 0 }
    } else if ptype == PACKET_TYPE_ERROR {
        if b.len() < 1 {
            SpecBodyDecode::Incomplete
        } else {
            SpecBodyDecode::Done { body: (BodyModel::Error { result_code: b[0] }), used: 1 }
        }
    } else if ptype == PACKET_TYPE_INSPECT_REQUEST {
        if b.len() < 3 {
            SpecBodyDecode::Incomplete
        } else {
            let inspect_type = b[0];
            let data_len = spec_be_u16(b.subrange(1, 3)) as int;
            if b.len() < 3 + data_len {
                SpecBodyDecode::Incomplete
            } else {
                SpecBodyDecode::Done {
                    body: (BodyModel::InspectRequest {
                        inspect_type,
                        data: b.subrange(3, 3 + data_len),
                    }),
                    used: 3 + data_len,
                }
            }
        }
    } else if ptype == PACKET_TYPE_INSPECT_RESPONSE {
        if b.len() < 2 {
            SpecBodyDecode::Incomplete
        } else {
            let data_len = spec_be_u16(b.subrange(0, 2)) as int;
            if b.len() < 2 + data_len {
                SpecBodyDecode::Incomplete
            } else {
                SpecBodyDecode::Done {
                    body: (BodyModel::InspectResponse { data: b.subrange(2, 2 + data_len) }),
                    used: 2 + data_len,
                }
            }
        }
    } else if ptype == PACKET_TYPE_INTERRUPT {
        if b.len() < 4 {
            SpecBodyDecode::Incomplete
        } else {
            SpecBodyDecode::Done {
                body: (BodyModel::Interrupt { req_id: spec_be_i32(b.subrange(0, 4)) }),
                used: 4,
            }
        }
    } else {
        SpecBodyDecode::Fail
    }
}

/// Decodes at most one packet from the front of `b`. Fewer than six bytes is
/// always Incomplete; an unknown packet type is a framing failure.
pub open spec fn spec_decode(b: Seq<u8>) -> SpecDecode {
    if b.len() < 6 {
        SpecDecode::Incomplete
    } else {
        let version = b[0];
        let serial_id = spec_be_i32(b.subrange(1, 5));
        let ptype = b[5];
        match spec_decode_body(ptype, b.skip(6)) {
            SpecBodyDecode::Done { body, used } => SpecDecode::Done {
                packet: PacketModel { version, serial_id, packet_type: ptype, body },
                used: 6 + used,
            },
            SpecBodyDecode::Incomplete => SpecDecode::Incomplete,
            SpecBodyDecode::Fail => SpecDecode::Fail,
        }
    }
}

/// Result of running the executable parser once over a buffer.
#[derive(Debug, Clone, PartialEq, Eq)]
pub enum ParseResult {
    /// One packet and the number of bytes it occupied at the buffer's front.
    Packet(SlackerPacket, usize),
    /// The buffer holds no complete packet yet; nothing was consumed.
    Incomplete,
    /// The buffer's front is not a packet (unknown packet type).
    WireError,
}

/// Copies `buf[from .. from + len]` into an owned vector.
fn copy_range(buf: &[u8], from: usize, len: usize) -> (v: Vec<u8>)
    requires
        from + len <= buf@.len(),
    ensures
        v@ == buf@.subrange(from as int, from as int + len as int),
{
    let total = buf.len();
    let mut v: Vec<u8> = Vec::new();
    let mut i: usize = 0;
    proof {
        assert(v@ =~= buf@.subrange(from as int, from as int));
    }
    while i < len
        invariant
            i <= len,
            from + len <= total == buf@.len(),
            v@ == buf@.subrange(from as int, from as int + i as int),
        decreases len - i,
    {
        v.push(buf[from + i]);
        i = i + 1;
        proof {
            assert(v@ =~= buf@.subrange(from as int, from as int + i as int));
        }
    }
    v
}

/// Parses at most one packet from the front of `buf`, per `spec_decode`.
pub fn parse_packet(buf: &[u8]) -> (r: ParseResult)
    ensures
        (match spec_decode(buf@) {
            SpecDecode::Done { packet, used } => (r matches ParseResult::Packet(p, n) && p@
                == packet && n == used),
            SpecDecode::Incomplete => r is Incomplete,
            SpecDecode::Fail => r is WireError,
        }),
{
    let n = buf.len();
    if n < 6 {
        return ParseResult::Incomplete;
    }
    let version = buf[0];
    let serial_id = read_i32_be(buf, 1);
    let ptype = buf[5];
    let header = SlackerPacketHeader { version, serial_id, packet_type: ptype };
    let ghost rest = buf@.skip(6);
    proof {
        assert(buf@.subrange(1, 5) =~= buf@.subrange(1int, 1int + 4));
    }
    if ptype == PACKET_TYPE_REQUEST {
        if n - 6 < 3 {
            return ParseResult::Incomplete;
        }
        let content_type = buf[6];
        let fname_len = read_u16_be(buf, 7) as usize;
        proof {
            assert(buf@.subrange(7, 9) =~= rest.subrange(1, 3));
        }
        if n - 9 < fname_len {
            return ParseResult::Incomplete;
        }
        if n - 9 - fname_len < 4 {
            return ParseResult::Incomplete;
        }
        let fname = copy_range(buf, 9, fname_len);
        let args_len = read_u32_be(buf, 9 + fname_len) as usize;
        proof {
            assert(buf@.subrange(9 + fname_len as int, 13 + fname_len as int) =~= rest.subrange(
                3 + fname_len as int,
                7 + fname_len as int,
            ));
            assert(fname@ =~= rest.subrange(3, 3 + fname_len as int));
        }
        if n - 13 - fname_len < args_len {
            return ParseResult::Incomplete;
        }
        let arguments = copy_range(buf, 13 + fname_len, args_len);
        proof {
            assert(arguments@ =~= rest.subrange(
                7 + fname_len as int,
                7 + fname_len as int + args_len as int,
            ));
        }
        let body = SlackerPacketBody::Request(
            SlackerRequestPacket { content_type, fname, arguments },
        );
        ParseResult::Packet(SlackerPacket(header, body), 13 + fname_len + args_len)
    } else if ptype == PACKET_TYPE_RESPONSE {
        if n - 6 < 6 {
            return ParseResult::Incomplete;
        }
        let content_type = buf[6];
        let result_code = buf[7];
        let data_len = read_u32_be(buf, 8) as usize;
        proof {
            assert(buf@.subrange(8, 12) =~= rest.subrange(2, 6));
        }
        if n - 12 < data_len {
            return ParseResult::Incomplete;
        }
        let data = copy_range(buf, 12, data_len);
        proof {
            assert(data@ =~= rest.subrange(6, 6 + data_len as int));
        }
        let body = SlackerPacketBody::Response(
            SlackerResponsePacket { content_type, result_code, data },
        );
        ParseResult::Packet(SlackerPacket(header, body), 12 + data_len)
    } else if ptype == PACKET_TYPE_PING {
        ParseResult::Packet(SlackerPacket(header, SlackerPacketBody::Ping), 6)
    } else if ptype == PACKET_TYPE_PONG {
        ParseResult::Packet(SlackerPacket(header, SlackerPacketBody::Pong), 6)
    } else if ptype == PACKET_TYPE_ERROR {
        if n - 6 < 1 {
            return ParseResult::Incomplete;
        }
        let body = SlackerPacketBody::Error(SlackerErrorPacket { result_code: buf[6] });
        ParseResult::Packet(SlackerPacket(header, body), 7)
    } else if ptype == PACKET_TYPE_INSPECT_REQUEST {
        if n - 6 < 3 {
            return ParseResult::Incomplete;
        }
        let inspect_type = buf[6];
        let data_len = read_u16_be(buf, 7) as usize;
        proof {
            assert(buf@.subrange(7, 9) =~= rest.subrange(1, 3));
        }
        if n - 9 < data_len {
            return ParseResult::Incomplete;
        }
        let data = copy_range(buf, 9, data_len);
        proof {
            assert(data@ =~= rest.subrange(3, 3 + data_len as int));
        }
        let body = SlackerPacketBody::InspectRequest(
            SlackerInspectRequestPacket { inspect_type, data },
        );
        ParseResult::Packet(SlackerPacket(header, body), 9 + data_len)
    } else if ptype == PACKET_TYPE_INSPECT_RESPONSE {
        if n - 6 < 2 {
            return ParseResult::Incomplete;
        }
        let data_len = read_u16_be(buf, 6) as usize;
        proof {
            assert(buf@.subrange(6, 8) =~= rest.subrange(0, 2));
        }
        if n - 8 < data_len {
            return ParseResult::Incomplete;
        }
        let data = copy_range(buf, 8, data_len);
        proof {
            assert(data@ =~= rest.subrange(2, 2 + data_len as int));
        }
        let body = SlackerPacketBody::InspectResponse(SlackerInspectResponsePacket { data });
        ParseResult::Packet(SlackerPacket(header, body), 8 + data_len)
    } else if ptype == PACKET_TYPE_INTERRUPT {
        if n - 6 < 4 {
            return ParseResult::Incomplete;
        }
        let req_id = read_i32_be(buf, 6);
        proof {
            assert(buf@.subrange(6, 10) =~= rest.subrange(0, 4));
        }
        let body = SlackerPacketBody::Interrupt(SlackerInterruptPacket { req_id });
        ParseResult::Packet(SlackerPacket(header, body), 10)
    } else {
        ParseResult::WireError
    }
}

} // verus!
