//! The protocol's round-trip laws: encoding then decoding returns the same
//! packet, back-to-back encodings decode to the same packet list, and a
//! stateful decoder fed the stream in arbitrary chunks delivers exactly that
//! list — no loss, no duplication, no phantom packets.

use vstd::prelude::*;

use crate::parser::{
    BodyModel, PacketModel, SpecBodyDecode, SpecDecode, body_tag, spec_decode, spec_decode_body,
    spec_encode, spec_encode_body, spec_encode_header, wf_body, wf_packet,
};
use crate::wire::{
    lemma_i32_be_round_trip, lemma_u16_be_round_trip, lemma_u32_be_round_trip, spec_be_u16,
    spec_be_u32, spec_i32_be, spec_u16_be, spec_u32_be,
};

verus! {

/// A decoded body occupies between zero bytes and the whole input.
pub proof fn lemma_body_used_bounds(ptype: u8, s: Seq<u8>)
    ensures
        (match spec_decode_body(ptype, s) {
            SpecBodyDecode::Done { used, .. } => 0 <= used <= s.len(),
            _ => true,
        }),
{
}

/// A decoded packet occupies between six bytes and the whole input.
pub proof fn lemma_used_bounds(b: Seq<u8>)
    ensures
        (match spec_decode(b) {
            SpecDecode::Done { used, .. } => 6 <= used <= b.len(),
            _ => true,
        }),
{
    if b.len() >= 6 {
        lemma_body_used_bounds(b[5], b.skip(6));
    }
}

/// The header image is always six bytes long.
pub proof fn lemma_header_len(p: PacketModel)
    ensures
        spec_encode_header(p).len() == 6,
        spec_encode(p).len() == 6 + spec_encode_body(p.body).len(),
{
}

/// Decoding a body never looks past the bytes it consumes: extending the
/// input changes neither a decoded body nor a failure.
pub proof fn lemma_body_decode_stable(ptype: u8, s: Seq<u8>, ext: Seq<u8>)
    ensures
        (match spec_decode_body(ptype, s) {
            SpecBodyDecode::Done { body, used } => spec_decode_body(ptype, s + ext)
                == (SpecBodyDecode::Done { body, used }),
            SpecBodyDecode::Fail => spec_decode_body(ptype, s + ext) is Fail,
            SpecBodyDecode::Incomplete => true,
        }),
{
    let t = s + ext;
    assert forall|i: int, j: int| 0 <= i <= j <= s.len() implies t.subrange(i, j) == s.subrange(
        i,
        j,
    ) by {
        assert(t.subrange(i, j) =~= s.subrange(i, j));
    }
}

/// Decoding never looks past the bytes it consumes: extending the input
/// changes neither a decoded packet nor a framing failure.
pub proof fn lemma_decode_stable(b: Seq<u8>, ext: Seq<u8>)
    ensures
        (match spec_decode(b) {
            SpecDecode::Done { packet, used } => spec_decode(b + ext) == (SpecDecode::Done {
                packet,
                used,
            }),
            SpecDecode::Fail => spec_decode(b + ext) is Fail,
            SpecDecode::Incomplete => true,
        }),
{
    if b.len() >= 6 {
        let t = b + ext;
        assert(t.subrange(1, 5) =~= b.subrange(1, 5));
        assert(t.skip(6) =~= b.skip(6) + ext);
        lemma_body_decode_stable(b[5], b.skip(6), ext);
    }
}

/// Encoding a well-formed body and decoding it back under its own tag yields
/// the same body, whatever bytes follow it.
pub proof fn lemma_body_round_trip(body: BodyModel, rest: Seq<u8>)
    requires
        wf_body(body),
    ensures
        spec_decode_body(body_tag(body), spec_encode_body(body) + rest) == (SpecBodyDecode::Done {
            body,
            used: spec_encode_body(body).len() as int,
        }),
{
    let e = spec_encode_body(body);
    let b = e + rest;
    match body {
        BodyModel::Request { content_type, fname, arguments } => {
            let fl = fname.len() as u16;
            let al = arguments.len() as u32;
            lemma_u16_be_round_trip(fl);
            lemma_u32_be_round_trip(al);
            assert(b.subrange(1, 3) =~= spec_u16_be(fl));
            assert(spec_be_u16(b.subrange(1, 3)) == fl);
            let fli = fl as int;
            assert(b.subrange(3, 3 + fli) =~= fname);
            assert(b.subrange(3 + fli, 7 + fli) =~= spec_u32_be(al));
            assert(spec_be_u32(b.subrange(3 + fli, 7 + fli)) == al);
            let ali = al as int;
            assert(b.subrange(7 + fli, 7 + fli + ali) =~= arguments);
            assert(spec_decode_body(body_tag(body), b) =~= SpecBodyDecode::Done {
                body,
                used: e.len() as int,
            });
        },
        BodyModel::Response { content_type, result_code, data } => {
            let dl = data.len() as u32;
            lemma_u32_be_round_trip(dl);
            assert(b.subrange(2, 6) =~= spec_u32_be(dl));
            assert(spec_be_u32(b.subrange(2, 6)) == dl);
            let dli = dl as int;
            assert(b.subrange(6, 6 + dli) =~= data);
            assert(spec_decode_body(body_tag(body), b) =~= SpecBodyDecode::Done {
                body,
                used: e.len() as int,
            });
        },
        BodyModel::Error { result_code } => {
            assert(b[0] == result_code);
        },
        BodyModel::InspectRequest { inspect_type, data } => {
            let dl = data.len() as u16;
            lemma_u16_be_round_trip(dl);
            assert(b.subrange(1, 3) =~= spec_u16_be(dl));
            assert(spec_be_u16(b.subrange(1, 3)) == dl);
            let dli = dl as int;
            assert(b.subrange(3, 3 + dli) =~= data);
            assert(spec_decode_body(body_tag(body), b) =~= SpecBodyDecode::Done {
                body,
                used: e.len() as int,
            });
        },
        BodyModel::InspectResponse { data } => {
            let dl = data.len() as u16;
            lemma_u16_be_round_trip(dl);
            assert(b.subrange(0, 2) =~= spec_u16_be(dl));
            assert(spec_be_u16(b.subrange(0, 2)) == dl);
            let dli = dl as int;
            assert(b.subrange(2, 2 + dli) =~= data);
            assert(spec_decode_body(body_tag(body), b) =~= SpecBodyDecode::Done {
                body,
                used: e.len() as int,
            });
        },
        BodyModel::Interrupt { req_id } => {
            lemma_i32_be_round_trip(req_id);
            assert(b.subrange(0, 4) =~= spec_i32_be(req_id));
        },
        BodyModel::Ping => {},
        BodyModel::Pong => {},
    }
}

/// Round trip, the law the codec is built around: the wire image of a
/// well-formed packet decodes back to that very packet and consumes exactly
/// its own bytes, whatever bytes follow it on the stream.
pub proof fn lemma_encode_decode(p: PacketModel, rest: Seq<u8>)
    requires
        wf_packet(p),
    ensures
        spec_decode(spec_encode(p) + rest) == (SpecDecode::Done {
            packet: p,
            used: spec_encode(p).len() as int,
        }),
{
    let e = spec_encode(p);
    let b = e + rest;
    lemma_header_len(p);
    assert(b[0] == p.version);
    assert(b.subrange(1, 5) =~= spec_i32_be(p.serial_id));
    lemma_i32_be_round_trip(p.serial_id);
    assert(b[5] == p.packet_type);
    assert(b.skip(6) =~= spec_encode_body(p.body) + rest);
    lemma_body_round_trip(p.body, rest);
    assert(spec_decode(b) =~= SpecDecode::Done { packet: p, used: e.len() as int });
}

/// Round trip on exactly the packet's own bytes.
pub proof fn lemma_encode_decode_exact(p: PacketModel)
    requires
        wf_packet(p),
    ensures
        spec_decode(spec_encode(p)) == (SpecDecode::Done {
            packet: p,
            used: spec_encode(p).len() as int,
        }),
{
    assert(spec_encode(p) + Seq::<u8>::empty() =~= spec_encode(p));
    lemma_encode_decode(p, Seq::<u8>::empty());
}


/// A buffer shorter than the six-byte header never yields a packet nor an
/// error: the decoder reports it incomplete and waits for more bytes.
pub proof fn lemma_short_buffer_incomplete(b: Seq<u8>)
    requires
        b.len() < 6,
    ensures
        spec_decode(b) is Incomplete,
{
}

/// The packet type codes the protocol defines.
pub open spec fn known_packet_type(t: u8) -> bool {
    ||| t == crate::parser::PACKET_TYPE_REQUEST
    ||| t == crate::parser::PACKET_TYPE_RESPONSE
    ||| t == crate::parser::PACKET_TYPE_PING
    ||| t == crate::parser::PACKET_TYPE_PONG
    ||| t == crate::parser::PACKET_TYPE_ERROR
    ||| t == crate::parser::PACKET_TYPE_INSPECT_REQUEST
    ||| t == crate::parser::PACKET_TYPE_INSPECT_RESPONSE
    ||| t == crate::parser::PACKET_TYPE_INTERRUPT
}

/// A full header whose packet type code is unknown is a wire error, never a
/// packet and never a request for more bytes.
pub proof fn lemma_unknown_type_fails(b: Seq<u8>)
    requires
        b.len() >= 6,
        !known_packet_type(b[5]),
    ensures
        spec_decode(b) is Fail,
{
}

/// The state of a connection's inbound stream after greedily decoding a byte
/// sequence: the packets delivered in wire order, the bytes still buffered,
/// and whether a framing failure killed the connection.
#[verifier::ext_equal]
pub struct DrainResult {
    pub delivered: Seq<PacketModel>,
    pub rest: Seq<u8>,
    pub dead: bool,
}

/// Greedily decodes packets from the front of `b` until the bytes run short
/// (`rest` keeps them for the next read) or framing fails (`dead`).
pub open spec fn spec_drain(b: Seq<u8>) -> DrainResult
    decreases b.len(),
{
    match spec_decode(b) {
        SpecDecode::Done { packet, used } => if 1 <= used <= b.len() {
            let tail = spec_drain(b.skip(used));
            DrainResult {
                delivered: seq![packet] + tail.delivered,
                rest: tail.rest,
                dead: tail.dead,
            }
        } else {
            DrainResult { delivered: seq![packet], rest: Seq::empty(), dead: false }
        },
        SpecDecode::Incomplete => DrainResult { delivered: seq![], rest: b, dead: false },
        SpecDecode::Fail => DrainResult { delivered: seq![], rest: b, dead: true },
    }
}

/// Draining is online: feeding more bytes first drains the old buffer, then
/// continues from its remainder. No packet is lost, duplicated or invented
/// by splitting a stream differently.
pub proof fn lemma_drain_online(b: Seq<u8>, ext: Seq<u8>)
    ensures
        spec_drain(b).dead ==> spec_drain(b + ext) == (DrainResult {
            delivered: spec_drain(b).delivered,
            rest: spec_drain(b).rest + ext,
            dead: true,
        }),
        !spec_drain(b).dead ==> spec_drain(b + ext) == (DrainResult {
            delivered: spec_drain(b).delivered + spec_drain(spec_drain(b).rest + ext).delivered,
            rest: spec_drain(spec_drain(b).rest + ext).rest,
            dead: spec_drain(spec_drain(b).rest + ext).dead,
        }),
    decreases b.len(),
{
    lemma_used_bounds(b);
    lemma_decode_stable(b, ext);
    match spec_decode(b) {
        SpecDecode::Done { packet, used } => {
            let tail = spec_drain(b.skip(used));
            assert((b + ext).skip(used) =~= b.skip(used) + ext);
            lemma_drain_online(b.skip(used), ext);
            if tail.dead {
                assert(spec_drain(b + ext) =~= DrainResult {
                    delivered: spec_drain(b).delivered,
                    rest: spec_drain(b).rest + ext,
                    dead: true,
                });
            } else {
                let cont = spec_drain(tail.rest + ext);
                assert(seq![packet] + (tail.delivered + cont.delivered) =~= (seq![packet]
                    + tail.delivered) + cont.delivered);
                assert(spec_drain(b + ext) =~= DrainResult {
                    delivered: spec_drain(b).delivered + cont.delivered,
                    rest: cont.rest,
                    dead: cont.dead,
                });
            }
        },
        SpecDecode::Incomplete => {
            assert(spec_drain(b).rest + ext =~= b + ext);
            assert(seq![] + spec_drain(b + ext).delivered =~= spec_drain(b + ext).delivered);
            assert(spec_drain(b + ext) =~= DrainResult {
                delivered: spec_drain(b).delivered + spec_drain(spec_drain(b).rest + ext).delivered,
                rest: spec_drain(spec_drain(b).rest + ext).rest,
                dead: spec_drain(spec_drain(b).rest + ext).dead,
            });
        },
        SpecDecode::Fail => {
            assert(spec_drain(b + ext) =~= DrainResult {
                delivered: spec_drain(b).delivered,
                rest: spec_drain(b).rest + ext,
                dead: true,
            });
        },
    }
}

/// Whatever bytes arrive later, the packets already delivered stay exactly
/// as they were: a decoder never retracts or reorders and never delivers a
/// phantom that more bytes would disavow.
pub proof fn lemma_no_phantom(b: Seq<u8>, ext: Seq<u8>)
    ensures
        spec_drain(b).delivered.is_prefix_of(spec_drain(b + ext).delivered),
{
    lemma_drain_online(b, ext);
    if spec_drain(b).dead {
    } else {
        assert(spec_drain(b + ext).delivered.take(spec_drain(b).delivered.len() as int)
            =~= spec_drain(b).delivered);
    }
}

/// The wire image of a packet list: each packet's bytes, back to back.
pub open spec fn spec_encode_all(ps: Seq<PacketModel>) -> Seq<u8>
    decreases ps.len(),
{
    if ps.len() == 0 {
        Seq::empty()
    } else {
        spec_encode(ps[0]) + spec_encode_all(ps.skip(1))
    }
}

/// Every packet of the list is well formed.
pub open spec fn wf_all(ps: Seq<PacketModel>) -> bool {
    forall|i: int| 0 <= i < ps.len() ==> wf_packet(#[trigger] ps[i])
}

/// Concatenation law: the back-to-back encodings of a packet list decode to
/// exactly that list, consuming every byte, with the connection alive.
pub proof fn lemma_drain_encode_all(ps: Seq<PacketModel>)
    requires
        wf_all(ps),
    ensures
        spec_drain(spec_encode_all(ps)) == (DrainResult {
            delivered: ps,
            rest: Seq::<u8>::empty(),
            dead: false,
        }),
    decreases ps.len(),
{
    if ps.len() == 0 {
        assert(spec_drain(spec_encode_all(ps)) =~= DrainResult {
            delivered: ps,
            rest: Seq::<u8>::empty(),
            dead: false,
        });
    } else {
        let p = ps[0];
        let tail_bytes = spec_encode_all(ps.skip(1));
        let b = spec_encode(p) + tail_bytes;
        lemma_header_len(p);
        lemma_encode_decode(p, tail_bytes);
        assert(b.skip(spec_encode(p).len() as int) =~= tail_bytes);
        lemma_drain_encode_all(ps.skip(1));
        assert(seq![p] + ps.skip(1) =~= ps);
        assert(spec_drain(b) =~= DrainResult {
            delivered: ps,
            rest: Seq::<u8>::empty(),
            dead: false,
        });
    }
}

/// The bytes of a chunked stream, in arrival order.
pub open spec fn spec_concat_chunks(chunks: Seq<Seq<u8>>) -> Seq<u8>
    decreases chunks.len(),
{
    if chunks.len() == 0 {
        Seq::empty()
    } else {
        spec_concat_chunks(chunks.drop_last()) + chunks.last()
    }
}

/// The decoder state after feeding the chunks one at a time into a fresh
/// stateful decoder, draining every packet after each chunk.
pub open spec fn spec_feed_all(chunks: Seq<Seq<u8>>) -> DrainResult
    decreases chunks.len(),
{
    if chunks.len() == 0 {
        DrainResult { delivered: seq![], rest: seq![], dead: false }
    } else {
        let s = spec_feed_all(chunks.drop_last());
        if s.dead {
            DrainResult { delivered: s.delivered, rest: s.rest + chunks.last(), dead: true }
        } else {
            let d = spec_drain(s.rest + chunks.last());
            DrainResult { delivered: s.delivered + d.delivered, rest: d.rest, dead: d.dead }
        }
    }
}

/// Chunking is irrelevant: feeding a stream in any chunks delivers exactly
/// what draining the whole stream at once delivers.
pub proof fn lemma_feed_all_is_drain(chunks: Seq<Seq<u8>>)
    ensures
        spec_feed_all(chunks) == spec_drain(spec_concat_chunks(chunks)),
    decreases chunks.len(),
{
    if chunks.len() == 0 {
        assert(spec_feed_all(chunks) =~= spec_drain(spec_concat_chunks(chunks)));
    } else {
        let pre = chunks.drop_last();
        let c = chunks.last();
        lemma_feed_all_is_drain(pre);
        lemma_drain_online(spec_concat_chunks(pre), c);
        assert(spec_feed_all(chunks) =~= spec_drain(spec_concat_chunks(chunks)));
    }
}

/// The incremental law: split the wire images of two well-formed packets
/// into chunks however you like; a stateful decoder fed those chunks
/// delivers exactly those two packets and nothing else.
pub proof fn lemma_incremental_two(p1: PacketModel, p2: PacketModel, chunks: Seq<Seq<u8>>)
    requires
        wf_packet(p1),
        wf_packet(p2),
        spec_concat_chunks(chunks) == spec_encode(p1) + spec_encode(p2),
    ensures
        spec_feed_all(chunks) == (DrainResult {
            delivered: seq![p1, p2],
            rest: Seq::<u8>::empty(),
            dead: false,
        }),
{
    let ps = seq![p1, p2];
    assert(wf_all(ps)) by {
        assert(ps[0] == p1 && ps[1] == p2);
    }
    assert(spec_encode_all(ps) =~= spec_encode(p1) + spec_encode(p2)) by {
        let one = seq![p2];
        assert(ps.skip(1) =~= one);
        assert(one.skip(1) =~= Seq::<PacketModel>::empty());
        assert(spec_encode_all(Seq::<PacketModel>::empty()) == Seq::<u8>::empty());
        assert(one[0] == p2);
        assert(spec_encode_all(one) == spec_encode(p2) + spec_encode_all(one.skip(1)));
        assert(spec_encode(p2) + Seq::<u8>::empty() =~= spec_encode(p2));
    }
    lemma_drain_encode_all(ps);
    lemma_feed_all_is_drain(chunks);
}

} // verus!

