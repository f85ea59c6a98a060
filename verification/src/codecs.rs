//! The framed codec: serializes packets onto a byte buffer and decodes
//! packets from the front of one, plus the stateful decoder that a
//! connection's reader drives as bytes arrive.

use vstd::prelude::*;

use crate::RpcError;
use crate::parser::{
    ParseResult, SlackerPacket, SlackerPacketBody, SpecDecode, parse_packet, spec_decode,
    spec_encode, wf_body,
};
use crate::wire::{push_all, push_i32_be, push_u16_be, push_u32_be};

verus! {

/// The Slacker framed codec. It is stateless: both operations work on a
/// caller-owned byte buffer.
#[derive(Debug, Copy, Clone)]
pub struct SlackerCodec;

impl SlackerCodec {
    /// Appends the wire image of `frame` to `buf`.
    ///
    /// Encoding succeeds on every packet whose payloads fit their length
    /// prefixes and then appends exactly `spec_encode(frame@)`; an oversized
    /// payload is refused with the buffer untouched.
    pub fn encode(&self, frame: &SlackerPacket, buf: &mut Vec<u8>) -> (r: Result<(), RpcError>)
        ensures
            wf_body(frame@.body) ==> r is Ok,
            r is Ok ==> wf_body(frame@.body) && final(buf)@ == old(buf)@ + spec_encode(frame@),
            r is Err ==> !wf_body(frame@.body) && final(buf)@ == old(buf)@,
    {
        let SlackerPacket(header, body) = frame;
        match body {
            SlackerPacketBody::Request(req) => {
                if req.fname.len() > 0xffff || req.arguments.len() > 0xffff_ffff {
                    return Err(RpcError::Wire);
                }
            },
            SlackerPacketBody::Response(resp) => {
                if resp.data.len() > 0xffff_ffff {
                    return Err(RpcError::Wire);
                }
            },
            SlackerPacketBody::InspectRequest(req) => {
                if req.data.len() > 0xffff {
                    return Err(RpcError::Wire);
                }
            },
            SlackerPacketBody::InspectResponse(resp) => {
                if resp.data.len() > 0xffff {
                    return Err(RpcError::Wire);
                }
            },
            _ => {},
        }
        buf.push(header.version);
        push_i32_be(buf, header.serial_id);
        buf.push(header.packet_type);
        proof {
            assert(buf@ =~= old(buf)@ + crate::parser::spec_encode_header(frame@));
        }
        let ghost with_header = buf@;
        match body {
            SlackerPacketBody::Request(req) => {
                buf.push(req.content_type);
                push_u16_be(buf, req.fname.len() as u16);
                push_all(buf, req.fname.as_slice());
                push_u32_be(buf, req.arguments.len() as u32);
                push_all(buf, req.arguments.as_slice());
            },
            SlackerPacketBody::Response(resp) => {
                buf.push(resp.content_type);
                buf.push(resp.result_code);
                push_u32_be(buf, resp.data.len() as u32);
                push_all(buf, resp.data.as_slice());
            },
            SlackerPacketBody::Error(e) => {
                buf.push(e.result_code);
            },
            SlackerPacketBody::Ping => {},
            SlackerPacketBody::Pong => {},
            SlackerPacketBody::InspectRequest(req) => {
                buf.push(req.inspect_type);
                push_u16_be(buf, req.data.len() as u16);
                push_all(buf, req.data.as_slice());
            },
            SlackerPacketBody::InspectResponse(resp) => {
                push_u16_be(buf, resp.data.len() as u16);
                push_all(buf, resp.data.as_slice());
            },
            SlackerPacketBody::Interrupt(i) => {
                push_i32_be(buf, i.req_id);
            },
        }
        proof {
            assert(buf@ =~= with_header + crate::parser::spec_encode_body(frame@.body));
            assert(buf@ =~= old(buf)@ + spec_encode(frame@));
        }
        Ok(())
    }

    /// Decodes at most one packet from the front of `buf`.
    ///
    /// On success the packet's bytes are consumed from the buffer; an
    /// incomplete buffer is left untouched and reports no packet, so the
    /// caller can retry once more bytes have arrived; a framing error leaves
    /// the buffer untouched and is fatal to the connection.
    pub fn decode(&self, buf: &mut Vec<u8>) -> (r: Result<Option<SlackerPacket>, RpcError>)
        ensures
            (match spec_decode(old(buf)@) {
                SpecDecode::Done { packet, used } => (r matches Ok(Some(p)) && p@ == packet
                    && final(buf)@ == old(buf)@.skip(used)),
                SpecDecode::Incomplete => r matches Ok(None) && final(buf)@ == old(buf)@,
                SpecDecode::Fail => (r matches Err(e) && e == RpcError::Wire
                    && final(buf)@ == old(buf)@),
            }),
    {
        match parse_packet(buf.as_slice()) {
            ParseResult::Packet(packet, used) => {
                let n = buf.len();
                let mut rest: Vec<u8> = Vec::new();
                let mut i: usize = used;
                proof {
                    assert(rest@ =~= buf@.subrange(used as int, used as int));
                }
                while i < n
                    invariant
                        used <= i <= n == buf@.len(),
                        rest@ == buf@.subrange(used as int, i as int),
                    decreases n - i,
                {
                    let b = buf[i];
                    rest.push(b);
                    i = i + 1;
                    proof {
                        assert(rest@ =~= buf@.subrange(used as int, i as int));
                    }
                }
                proof {
                    assert(rest@ =~= buf@.skip(used as int));
                }
                *buf = rest;
                Ok(Some(packet))
            },
            ParseResult::Incomplete => Ok(None),
            ParseResult::WireError => Err(RpcError::Wire),
        }
    }
}

/// A connection's stateful decoder: buffers bytes as they arrive and yields
/// the packets they form, each exactly once, in wire order.
#[derive(Debug)]
pub struct StreamDecoder {
    buf: Vec<u8>,
    codec: SlackerCodec,
}

impl StreamDecoder {
    /// The bytes received so far and not yet consumed by a decoded packet.
    pub closed spec fn buffered(&self) -> Seq<u8> {
        self.buf@
    }

    /// A fresh decoder with an empty buffer.
    pub fn new() -> (d: StreamDecoder)
        ensures
            d.buffered() == Seq::<u8>::empty(),
    {
        let d = StreamDecoder { buf: Vec::new(), codec: SlackerCodec };
        proof {
            assert(d.buffered() =~= Seq::<u8>::empty());
        }
        d
    }

    /// Accepts the next chunk of bytes from the stream, however the stream
    /// was split.
    pub fn feed(&mut self, chunk: &[u8])
        ensures
            final(self).buffered() == old(self).buffered() + chunk@,
    {
        push_all(&mut self.buf, chunk);
    }

    /// Yields the next packet if the buffered bytes complete one; reports
    /// that more bytes are needed otherwise. A framing error is fatal.
    pub fn poll(&mut self) -> (r: Result<Option<SlackerPacket>, RpcError>)
        ensures
            (match spec_decode(old(self).buffered()) {
                SpecDecode::Done { packet, used } => (r matches Ok(Some(p)) && p@ == packet
                    && final(self).buffered() == old(self).buffered().skip(used)),
                SpecDecode::Incomplete => (r matches Ok(None)
                    && final(self).buffered() == old(self).buffered()),
                SpecDecode::Fail => (r matches Err(e) && e == RpcError::Wire
                    && final(self).buffered() == old(self).buffered()),
            }),
    {
        let codec = self.codec;
        codec.decode(&mut self.buf)
    }
}

} // verus!
