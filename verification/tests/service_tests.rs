use serde_json::Value;
use slacker::client::{ClientEvent, ClientManager};
use slacker::codecs::SlackerCodec;
use slacker::parser::{
    SlackerErrorPacket, SlackerInspectRequestPacket, SlackerInterruptPacket, SlackerPacket,
    SlackerPacketBody, SlackerPacketHeader, SlackerRequestPacket, SlackerResponsePacket,
};
use slacker::serializer::JsonSerializer;
use slacker::service::{Registry, ServerAction, SlackerService, SlackerServiceSync, finish};

fn header(serial_id: i32, packet_type: u8) -> SlackerPacketHeader {
    SlackerPacketHeader { version: 5, serial_id, packet_type }
}

fn request(serial_id: i32, fname: &[u8], args: &[u8]) -> SlackerPacket {
    SlackerPacket(
        header(serial_id, 0),
        SlackerPacketBody::Request(SlackerRequestPacket {
            content_type: 1,
            fname: fname.to_vec(),
            arguments: args.to_vec(),
        }),
    )
}

#[test]
fn registry_assigns_and_finds_slots() {
    let mut registry = Registry::new();
    let a = registry.register(b"ns/a".to_vec());
    let b = registry.register(b"ns/b".to_vec());
    assert_ne!(a, b);
    assert_eq!(registry.register(b"ns/a".to_vec()), a);
    assert_eq!(registry.lookup(b"ns/a"), Some(a));
    assert_eq!(registry.lookup(b"ns/b"), Some(b));
    assert_eq!(registry.lookup(b"ns/c"), None);
    assert_eq!(registry.len(), 2);
}

#[test]
fn ping_is_answered_by_matching_pong() {
    let service = SlackerService::new(Registry::new());
    let action = service.call(SlackerPacket(header(42, 2), SlackerPacketBody::Ping));
    match action {
        ServerAction::Reply(p) => {
            assert_eq!(p.0.version, 5);
            assert_eq!(p.0.serial_id, 42);
            assert_eq!(p.0.packet_type, 3);
            assert!(matches!(p.1, SlackerPacketBody::Pong));
        }
        other => panic!("expected a reply, got {:?}", other),
    }
}

#[test]
fn unknown_function_is_answered_not_found() {
    let mut registry = Registry::new();
    registry.register(b"rust.test/echo".to_vec());
    let service = SlackerService::new(registry);
    let action = service.call(request(3, b"rust.test/nope", b"[]"));
    match action {
        ServerAction::Reply(p) => {
            assert_eq!(p.0.serial_id, 3);
            assert_eq!(p.0.packet_type, 4);
            match p.1 {
                SlackerPacketBody::Error(e) => assert_eq!(e.result_code, 11),
                other => panic!("expected an error body, got {:?}", other),
            }
        }
        other => panic!("expected a reply, got {:?}", other),
    }
}

#[test]
fn empty_fname_is_answered_not_found() {
    let mut registry = Registry::new();
    registry.register(b"rust.test/echo".to_vec());
    let service = SlackerService::new(registry);
    let action = service.call(request(8, b"", b"[]"));
    match action {
        ServerAction::Reply(p) => {
            assert_eq!(p.0.serial_id, 8);
            match p.1 {
                SlackerPacketBody::Error(e) => assert_eq!(e.result_code, 11),
                other => panic!("expected an error body, got {:?}", other),
            }
        }
        other => panic!("expected a reply, got {:?}", other),
    }
}

#[test]
fn bad_payload_is_answered_with_error_and_connection_lives_on() {
    let mut registry = Registry::new();
    registry.register(b"rust.test/echo".to_vec());
    let service = SlackerService::new(registry);
    let action = service.call(request(4, b"rust.test/echo", b"this is not json"));
    match action {
        ServerAction::Reply(p) => {
            assert_eq!(p.0.serial_id, 4);
            assert_eq!(p.0.packet_type, 4);
            assert!(matches!(p.1, SlackerPacketBody::Error(_)));
        }
        other => panic!("expected a reply, got {:?}", other),
    }
    // the connection stays open: a later ping still gets its pong
    let action = service.call(SlackerPacket(header(5, 2), SlackerPacketBody::Ping));
    match action {
        ServerAction::Reply(p) => {
            assert_eq!(p.0.serial_id, 5);
            assert_eq!(p.0.packet_type, 3);
        }
        other => panic!("expected a reply, got {:?}", other),
    }
}

#[test]
fn non_array_payload_is_answered_with_error() {
    let mut registry = Registry::new();
    registry.register(b"rust.test/echo".to_vec());
    let service = SlackerService::new(registry);
    let action = service.call(request(6, b"rust.test/echo", b"{\"a\":1}"));
    match action {
        ServerAction::Reply(p) => match p.1 {
            SlackerPacketBody::Error(e) => assert_eq!(e.result_code, 14),
            other => panic!("expected an error body, got {:?}", other),
        },
        other => panic!("expected a reply, got {:?}", other),
    }
}

#[test]
fn wrong_direction_packet_closes_the_connection() {
    let service = SlackerService::new(Registry::new());
    let resp = SlackerPacket(
        header(1, 1),
        SlackerPacketBody::Response(SlackerResponsePacket {
            content_type: 1,
            result_code: 0,
            data: Vec::new(),
        }),
    );
    assert!(matches!(service.call(resp), ServerAction::Close));
    let err = SlackerPacket(
        header(1, 4),
        SlackerPacketBody::Error(SlackerErrorPacket { result_code: 0 }),
    );
    assert!(matches!(service.call(err), ServerAction::Close));
    let pong = SlackerPacket(header(1, 3), SlackerPacketBody::Pong);
    assert!(matches!(service.call(pong), ServerAction::Close));
}

#[test]
fn interrupt_is_dropped_and_the_connection_lives_on() {
    let service = SlackerService::new(Registry::new());
    let interrupt = SlackerPacket(
        header(1, 9),
        SlackerPacketBody::Interrupt(SlackerInterruptPacket { req_id: 0 }),
    );
    assert!(matches!(service.call(interrupt), ServerAction::Discard));
    // the connection stays open: a later ping still gets its pong
    match service.call(SlackerPacket(header(2, 2), SlackerPacketBody::Ping)) {
        ServerAction::Reply(p) => assert_eq!(p.0.packet_type, 3),
        other => panic!("expected a reply, got {:?}", other),
    }
}

#[test]
fn inspect_request_is_dropped_with_a_warning() {
    let service = SlackerService::new(Registry::new());
    let inspect = SlackerPacket(
        header(1, 7),
        SlackerPacketBody::InspectRequest(SlackerInspectRequestPacket {
            inspect_type: 0,
            data: Vec::new(),
        }),
    );
    assert!(matches!(service.call(inspect), ServerAction::Discard));
}

#[test]
fn handler_failure_becomes_error_packet() {
    let h = header(12, 0);
    let p = finish(&h, 1, None);
    assert_eq!(p.0.serial_id, 12);
    assert_eq!(p.0.packet_type, 4);
    match p.1 {
        SlackerPacketBody::Error(e) => assert_eq!(e.result_code, 12),
        other => panic!("expected an error body, got {:?}", other),
    }
}

#[test]
fn sync_service_dispatches_like_the_async_one() {
    let mut registry = Registry::new();
    let idx = registry.register(b"rust.test/echo".to_vec());
    let service = SlackerServiceSync::new(registry, 4);
    assert_eq!(service.threads(), 4);
    match service.call(request(2, b"rust.test/echo", b"[true]")) {
        ServerAction::Invoke { handler, header, content_type, args } => {
            assert_eq!(handler, idx);
            assert_eq!(header.serial_id, 2);
            assert_eq!(content_type, 1);
            assert_eq!(args, vec![Value::from(true)]);
        }
        other => panic!("expected an invoke, got {:?}", other),
    }
}

type Handler = Box<dyn Fn(Vec<Value>) -> Option<Value>>;

#[test]
fn echo_happy_path_end_to_end() {
    // server side
    let mut registry = Registry::new();
    let echo_slot = registry.register(b"rust.test/echo".to_vec());
    let mut handlers: Vec<Handler> = Vec::new();
    assert_eq!(echo_slot, handlers.len());
    handlers.push(Box::new(|args| Some(Value::Array(args))));
    let service = SlackerService::new(registry);
    let serializer = JsonSerializer;
    let codec = SlackerCodec;

    // client side
    let manager = ClientManager::new();
    let mut client = manager.client();
    let args = vec![Value::from(1i64), Value::from(2i64)];
    let req = client.rpc_call(b"rust.test", b"echo", args, 7).unwrap();

    // client -> server over the wire
    let mut wire: Vec<u8> = Vec::new();
    codec.encode(&req, &mut wire).unwrap();
    let at_server = codec.decode(&mut wire).unwrap().unwrap();
    assert!(wire.is_empty());

    // dispatch, run the handler, answer
    let reply = match service.call(at_server) {
        ServerAction::Invoke { handler, header, content_type, args } => {
            let outcome = handlers[handler](args).and_then(|v| serializer.serialize(&v).ok());
            finish(&header, content_type, outcome)
        }
        other => panic!("expected an invoke, got {:?}", other),
    };

    // server -> client over the wire
    let mut back: Vec<u8> = Vec::new();
    codec.encode(&reply, &mut back).unwrap();
    let at_client = codec.decode(&mut back).unwrap().unwrap();

    match client.handle_incoming(at_client) {
        ClientEvent::Deliver { ticket, content_type, result_code, data } => {
            assert_eq!(ticket, 7);
            assert_eq!(content_type, 1);
            assert_eq!(result_code, 0);
            let v = serializer.deserialize(&data).unwrap();
            assert_eq!(v, Value::Array(vec![Value::from(1i64), Value::from(2i64)]));
        }
        other => panic!("expected a delivery, got {:?}", other),
    }
}

#[test]
fn interleaved_calls_resolve_their_own_tickets() {
    let mut registry = Registry::new();
    let slot = registry.register(b"rust.test/echo".to_vec());
    let service = SlackerService::new(registry);
    let serializer = JsonSerializer;

    let manager = ClientManager::new();
    let mut client = manager.client();
    let req_a = client.rpc_call(b"rust.test", b"echo", vec![Value::from(1i64)], 100).unwrap();
    let req_b = client.rpc_call(b"rust.test", b"echo", vec![Value::from(2i64)], 200).unwrap();
    assert_eq!(req_a.0.serial_id, 0);
    assert_eq!(req_b.0.serial_id, 1);

    // the server dispatches both before either handler completes
    let invoke = |req: SlackerPacket| match service.call(req) {
        ServerAction::Invoke { handler, header, content_type, args } => {
            assert_eq!(handler, slot);
            (header, content_type, args)
        }
        other => panic!("expected an invoke, got {:?}", other),
    };
    let (ha, cta, args_a) = invoke(req_a);
    let (hb, ctb, args_b) = invoke(req_b);

    // b's handler completes first; its reply overtakes a's
    let reply_b = finish(&hb, ctb, serializer.serialize(&Value::Array(args_b)).ok());
    let reply_a = finish(&ha, cta, serializer.serialize(&Value::Array(args_a)).ok());

    match client.handle_incoming(reply_b) {
        ClientEvent::Deliver { ticket, data, .. } => {
            assert_eq!(ticket, 200);
            assert_eq!(data, b"[2]".to_vec());
        }
        other => panic!("expected a delivery, got {:?}", other),
    }
    match client.handle_incoming(reply_a) {
        ClientEvent::Deliver { ticket, data, .. } => {
            assert_eq!(ticket, 100);
            assert_eq!(data, b"[1]".to_vec());
        }
        other => panic!("expected a delivery, got {:?}", other),
    }
}
