use slacker::RpcError;
use slacker::codecs::{SlackerCodec, StreamDecoder};
use slacker::parser::{
    SlackerErrorPacket, SlackerInspectRequestPacket, SlackerInspectResponsePacket,
    SlackerInterruptPacket, SlackerPacket, SlackerPacketBody, SlackerPacketHeader,
    SlackerRequestPacket, SlackerResponsePacket,
};

fn header(serial_id: i32, packet_type: u8) -> SlackerPacketHeader {
    SlackerPacketHeader { version: 5, serial_id, packet_type }
}

fn sample_packets() -> Vec<SlackerPacket> {
    vec![
        SlackerPacket(
            header(1, 0),
            SlackerPacketBody::Request(SlackerRequestPacket {
                content_type: 1,
                fname: b"rust.test/echo".to_vec(),
                arguments: b"[1,2]".to_vec(),
            }),
        ),
        SlackerPacket(
            header(1, 1),
            SlackerPacketBody::Response(SlackerResponsePacket {
                content_type: 1,
                result_code: 0,
                data: b"[1,2]".to_vec(),
            }),
        ),
        SlackerPacket(header(42, 2), SlackerPacketBody::Ping),
        SlackerPacket(header(42, 3), SlackerPacketBody::Pong),
        SlackerPacket(
            header(9, 4),
            SlackerPacketBody::Error(SlackerErrorPacket { result_code: 11 }),
        ),
        SlackerPacket(
            header(2, 7),
            SlackerPacketBody::InspectRequest(SlackerInspectRequestPacket {
                inspect_type: 1,
                data: b"hi".to_vec(),
            }),
        ),
        SlackerPacket(
            header(3, 8),
            SlackerPacketBody::InspectResponse(SlackerInspectResponsePacket {
                data: b"ok".to_vec(),
            }),
        ),
        SlackerPacket(
            header(-7, 9),
            SlackerPacketBody::Interrupt(SlackerInterruptPacket { req_id: 5 }),
        ),
    ]
}

#[test]
fn round_trip_every_packet_kind() {
    let codec = SlackerCodec;
    for p in sample_packets() {
        let mut wire: Vec<u8> = Vec::new();
        codec.encode(&p, &mut wire).expect("well-formed packet must encode");
        let decoded = codec.decode(&mut wire).expect("no wire error").expect("one packet");
        assert_eq!(decoded, p);
        assert!(wire.is_empty());
    }
}

#[test]
fn ping_exact_bytes() {
    let codec = SlackerCodec;
    let mut wire: Vec<u8> = Vec::new();
    codec
        .encode(&SlackerPacket(header(42, 2), SlackerPacketBody::Ping), &mut wire)
        .unwrap();
    assert_eq!(wire, vec![5u8, 0, 0, 0, 42, 2]);
}

#[test]
fn negative_serial_id_exact_bytes() {
    let codec = SlackerCodec;
    let mut wire: Vec<u8> = Vec::new();
    codec
        .encode(&SlackerPacket(header(-1, 3), SlackerPacketBody::Pong), &mut wire)
        .unwrap();
    assert_eq!(wire, vec![5u8, 255, 255, 255, 255, 3]);
}

#[test]
fn request_exact_bytes() {
    let codec = SlackerCodec;
    let p = SlackerPacket(
        header(7, 0),
        SlackerPacketBody::Request(SlackerRequestPacket {
            content_type: 1,
            fname: b"a/b".to_vec(),
            arguments: b"[1,2]".to_vec(),
        }),
    );
    let mut wire: Vec<u8> = Vec::new();
    codec.encode(&p, &mut wire).unwrap();
    let mut expected = vec![5u8, 0, 0, 0, 7, 0];
    expected.extend_from_slice(&[1, 0, 3]);
    expected.extend_from_slice(b"a/b");
    expected.extend_from_slice(&[0, 0, 0, 5]);
    expected.extend_from_slice(b"[1,2]");
    assert_eq!(wire, expected);
}

#[test]
fn error_packet_exact_bytes() {
    let codec = SlackerCodec;
    let p = SlackerPacket(
        header(9, 4),
        SlackerPacketBody::Error(SlackerErrorPacket { result_code: 11 }),
    );
    let mut wire: Vec<u8> = Vec::new();
    codec.encode(&p, &mut wire).unwrap();
    assert_eq!(wire, vec![5u8, 0, 0, 0, 9, 4, 11]);
}

#[test]
fn interrupt_exact_bytes() {
    let codec = SlackerCodec;
    let p = SlackerPacket(
        header(1, 9),
        SlackerPacketBody::Interrupt(SlackerInterruptPacket { req_id: 5 }),
    );
    let mut wire: Vec<u8> = Vec::new();
    codec.encode(&p, &mut wire).unwrap();
    assert_eq!(wire, vec![5u8, 0, 0, 0, 1, 9, 0, 0, 0, 5]);
}

#[test]
fn concatenated_packets_decode_in_order() {
    let codec = SlackerCodec;
    let packets = sample_packets();
    let mut wire: Vec<u8> = Vec::new();
    for p in &packets {
        codec.encode(p, &mut wire).unwrap();
    }
    let mut decoded: Vec<SlackerPacket> = Vec::new();
    loop {
        match codec.decode(&mut wire).unwrap() {
            Some(p) => decoded.push(p),
            None => break,
        }
    }
    assert_eq!(decoded, packets);
    assert!(wire.is_empty());
}

#[test]
fn short_buffer_is_incomplete() {
    let codec = SlackerCodec;
    for len in 0..6usize {
        let mut wire: Vec<u8> = vec![5; len];
        let r = codec.decode(&mut wire).unwrap();
        assert!(r.is_none());
        assert_eq!(wire.len(), len);
    }
}

#[test]
fn unknown_packet_type_is_wire_error() {
    let codec = SlackerCodec;
    let mut wire: Vec<u8> = vec![5, 0, 0, 0, 1, 99];
    match codec.decode(&mut wire) {
        Err(RpcError::Wire) => {}
        other => panic!("expected a wire error, got {:?}", other),
    }
}

#[test]
fn empty_fname_decodes_to_empty_name() {
    let codec = SlackerCodec;
    // content_type 1, fname_len 0, args_len 2, args "[]"
    let mut wire: Vec<u8> = vec![5, 0, 0, 0, 1, 0, 1, 0, 0, 0, 0, 0, 2];
    wire.extend_from_slice(b"[]");
    let p = codec.decode(&mut wire).unwrap().unwrap();
    match p.1 {
        SlackerPacketBody::Request(req) => {
            assert!(req.fname.is_empty());
            assert_eq!(req.arguments, b"[]".to_vec());
        }
        other => panic!("expected a request, got {:?}", other),
    }
}

#[test]
fn zero_args_len_decodes_to_empty_arguments() {
    let codec = SlackerCodec;
    // content_type 1, fname_len 1, fname "f", args_len 0
    let mut wire: Vec<u8> = vec![5, 0, 0, 0, 1, 0, 1, 0, 1];
    wire.push(b'f');
    wire.extend_from_slice(&[0, 0, 0, 0]);
    let p = codec.decode(&mut wire).unwrap().unwrap();
    match p.1 {
        SlackerPacketBody::Request(req) => {
            assert_eq!(req.fname, b"f".to_vec());
            assert!(req.arguments.is_empty());
        }
        other => panic!("expected a request, got {:?}", other),
    }
}

#[test]
fn truncated_request_is_incomplete_until_complete() {
    let codec = SlackerCodec;
    let p = SlackerPacket(
        header(7, 0),
        SlackerPacketBody::Request(SlackerRequestPacket {
            content_type: 1,
            fname: b"a/b".to_vec(),
            arguments: b"[1,2]".to_vec(),
        }),
    );
    let mut full: Vec<u8> = Vec::new();
    codec.encode(&p, &mut full).unwrap();
    for cut in 0..full.len() {
        let mut wire = full[..cut].to_vec();
        assert!(codec.decode(&mut wire).unwrap().is_none(), "cut at {}", cut);
        assert_eq!(wire.len(), cut, "nothing consumed at {}", cut);
    }
}

#[test]
fn oversized_fname_is_refused() {
    let codec = SlackerCodec;
    let p = SlackerPacket(
        header(7, 0),
        SlackerPacketBody::Request(SlackerRequestPacket {
            content_type: 1,
            fname: vec![b'x'; 0x1_0000],
            arguments: Vec::new(),
        }),
    );
    let mut wire: Vec<u8> = Vec::new();
    match codec.encode(&p, &mut wire) {
        Err(RpcError::Wire) => {}
        other => panic!("expected a wire error, got {:?}", other),
    }
    assert!(wire.is_empty());
}

#[test]
fn byte_at_a_time_delivery() {
    let codec = SlackerCodec;
    let p = SlackerPacket(
        header(7, 0),
        SlackerPacketBody::Request(SlackerRequestPacket {
            content_type: 1,
            fname: b"rust.test/echo".to_vec(),
            arguments: b"[1,2]".to_vec(),
        }),
    );
    let mut full: Vec<u8> = Vec::new();
    codec.encode(&p, &mut full).unwrap();
    let mut decoder = StreamDecoder::new();
    for (i, byte) in full.iter().enumerate() {
        decoder.feed(&[*byte]);
        let r = decoder.poll().unwrap();
        if i + 1 < full.len() {
            assert!(r.is_none(), "phantom packet after byte {}", i);
        } else {
            assert_eq!(r.unwrap(), p);
        }
    }
    assert!(decoder.poll().unwrap().is_none());
}

#[test]
fn arbitrary_chunks_deliver_both_packets() {
    let codec = SlackerCodec;
    let p1 = SlackerPacket(header(1, 2), SlackerPacketBody::Ping);
    let p2 = SlackerPacket(
        header(2, 1),
        SlackerPacketBody::Response(SlackerResponsePacket {
            content_type: 1,
            result_code: 0,
            data: b"true".to_vec(),
        }),
    );
    let mut full: Vec<u8> = Vec::new();
    codec.encode(&p1, &mut full).unwrap();
    codec.encode(&p2, &mut full).unwrap();
    for chunk_size in 1..=full.len() {
        let mut decoder = StreamDecoder::new();
        let mut got: Vec<SlackerPacket> = Vec::new();
        for chunk in full.chunks(chunk_size) {
            decoder.feed(chunk);
            while let Some(p) = decoder.poll().unwrap() {
                got.push(p);
            }
        }
        assert_eq!(got, vec![p1.clone(), p2.clone()], "chunk size {}", chunk_size);
    }
}
