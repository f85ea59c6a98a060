//! Server-side dispatch: the registry of named handlers and the decision a
//! server takes for each inbound packet.
//!
//! Handlers themselves are opaque callables owned by the embedding program;
//! the library decides which handler a request names, whether its arguments
//! decode, and what packet answers it. The embedding runs the handler and
//! hands the outcome back to `finish`.

use vstd::prelude::*;

use crate::parser::{
    BodyModel, PACKET_TYPE_ERROR, PACKET_TYPE_PONG, PACKET_TYPE_RESPONSE, PacketModel,
    RESULT_CODE_EXCEPTION, RESULT_CODE_INVALID_DATA, RESULT_CODE_NOT_FOUND, RESULT_CODE_SUCCESS,
    SlackerErrorPacket, SlackerPacket, SlackerPacketBody, SlackerPacketHeader,
    SlackerResponsePacket, wf_packet,
};
use crate::serializer::{JsonSerializer, json_array_wf};

verus! {

/// Compares two byte strings.
fn bytes_eq(a: &[u8], b: &[u8]) -> (r: bool)
    ensures
        r == (a@ == b@),
{
    if a.len() != b.len() {
        return false;
    }
    let n = a.len();
    let mut i: usize = 0;
    while i < n
        invariant
            i <= n,
            n == a@.len() == b@.len(),
            forall|j: int| 0 <= j < i ==> a@[j] == b@[j],
        decreases n - i,
    {
        if a[i] != b[i] {
            return false;
        }
        i = i + 1;
    }
    proof {
        assert(a@ =~= b@);
    }
    true
}

/// Whether some registered name equals `name`.
pub open spec fn contains_name(names: Seq<Seq<u8>>, name: Seq<u8>) -> bool {
    exists|i: int| 0 <= i < names.len() && names[i] == name
}

/// The registry of handler names, installed at server construction and
/// read-only afterwards. A handler is addressed by its fully-qualified name
/// (`namespace/function` as UTF-8 bytes) and identified to the embedding by
/// the slot index this registry assigned to it.
#[derive(Debug)]
pub struct Registry {
    names: Vec<Vec<u8>>,
}

impl View for Registry {
    type V = Seq<Seq<u8>>;

    closed spec fn view(&self) -> Seq<Seq<u8>> {
        self.names@.map_values(|v: Vec<u8>| v@)
    }
}

impl Registry {
    /// An empty registry.
    pub fn new() -> (r: Registry)
        ensures
            r@ == Seq::<Seq<u8>>::empty(),
    {
        let r = Registry { names: Vec::new() };
        proof {
            assert(r@ =~= Seq::<Seq<u8>>::empty());
        }
        r
    }

    /// How many names are registered.
    pub fn len(&self) -> (n: usize)
        ensures
            n == self@.len(),
    {
        self.names.len()
    }

    /// The slot of the first registered name equal to `name`, if any.
    pub fn lookup(&self, name: &[u8]) -> (r: Option<usize>)
        ensures
            (match r {
                Some(i) => i < self@.len() && self@[i as int] == name@ && (forall|j: int|
                    0 <= j < i ==> self@[j] != name@),
                None => !contains_name(self@, name@),
            }),
{
        let n = self.names.len();
        let mut i: usize = 0;
        while i < n
            invariant
                i <= n == self@.len(),
                self@.len() == self.names@.len(),
                forall|j: int| 0 <= j < i ==> self@[j] != name@,
            decreases n - i,
        {
            if bytes_eq(self.names[i].as_slice(), name) {
                return Some(i);
            }
            i = i + 1;
        }
        None
    }

    /// Registers `name`, returning its slot: the slot it already holds if
    /// the name is present, a fresh one at the end otherwise.
    pub fn register(&mut self, name: Vec<u8>) -> (idx: usize)
        ensures
            idx < final(self)@.len() && final(self)@[idx as int] == name@,
            contains_name(old(self)@, name@) ==> final(self)@ == old(self)@,
            !contains_name(old(self)@, name@) ==> final(self)@ == old(self)@.push(name@) && idx
                == old(self)@.len(),
    {
        match self.lookup(name.as_slice()) {
            Some(i) => i,
            None => {
                let ghost gname = name@;
                let idx = self.names.len();
                self.names.push(name);
                proof {
                    assert(self@ =~= old(self)@.push(gname));
                }
                idx
            },
        }
    }
}

/// The Pong that answers a Ping: same version and serial id, empty body.
pub open spec fn pong_model(version: u8, serial_id: i32) -> PacketModel {
    PacketModel { version, serial_id, packet_type: PACKET_TYPE_PONG, body: BodyModel::Pong }
}

/// The Error packet that answers a failed request: same version and serial
/// id, carrying a result code.
pub open spec fn error_model(version: u8, serial_id: i32, code: u8) -> PacketModel {
    PacketModel {
        version,
        serial_id,
        packet_type: PACKET_TYPE_ERROR,
        body: BodyModel::Error { result_code: code },
    }
}

/// The Response packet that answers a successful request: same version and
/// serial id, the request's content type, the success code, and the
/// serialized result.
pub open spec fn response_model(version: u8, serial_id: i32, content_type: u8, data: Seq<u8>)
    -> PacketModel {
    PacketModel {
        version,
        serial_id,
        packet_type: PACKET_TYPE_RESPONSE,
        body: BodyModel::Response { content_type, result_code: RESULT_CODE_SUCCESS, data },
    }
}

/// Builds the Error packet answering `header` with `code`.
fn make_error(header: &SlackerPacketHeader, code: u8) -> (p: SlackerPacket)
    ensures
        p@ == error_model(header.version, header.serial_id, code),
        wf_packet(p@),
{
    SlackerPacket(
        SlackerPacketHeader {
            version: header.version,
            serial_id: header.serial_id,
            packet_type: PACKET_TYPE_ERROR,
        },
        SlackerPacketBody::Error(SlackerErrorPacket { result_code: code }),
    )
}

/// What a server does with one inbound packet.
#[derive(Debug)]
pub enum ServerAction {
    /// Answer with this packet; the connection stays open.
    Reply(SlackerPacket),
    /// Run the handler in slot `handler` on `args`, then answer with the
    /// packet `finish` builds from this header and content type.
    Invoke {
        handler: usize,
        header: SlackerPacketHeader,
        content_type: u8,
        args: Vec<serde_json::Value>,
    },
    /// The packet is addressed to a server but asks nothing this one
    /// serves (an Interrupt or a metadata query): dropped with a warning,
    /// no reply, and the connection stays open.
    Discard,
    /// The packet must not reach a server; the connection closes.
    Close,
}

/// Decides what answers one inbound packet, given the registered names.
///
/// A Ping is answered by the matching Pong. A Request is answered by a
/// NotFound error if no handler bears its name, by an InvalidData error if
/// its arguments are not a JSON array, and otherwise asks the embedding to
/// run the named handler. Every reply echoes the request's version and
/// serial id. An Interrupt or an InspectRequest travels in the right
/// direction but asks nothing this server serves: it is dropped with a
/// warning and the connection stays open. A reply-direction packet
/// (Response, Error, Pong, InspectResponse) must not reach a server and
/// kills the connection.
pub fn dispatch(registry: &Registry, req: SlackerPacket) -> (a: ServerAction)
    ensures
        (match req@.body {
            BodyModel::Request { content_type, fname, arguments } => {
                if !contains_name(registry@, fname) {
                    a matches ServerAction::Reply(p) && p@ == error_model(
                        req@.version,
                        req@.serial_id,
                        RESULT_CODE_NOT_FOUND,
                    ) && wf_packet(p@)
                } else if !json_array_wf(arguments) {
                    a matches ServerAction::Reply(p) && p@ == error_model(
                        req@.version,
                        req@.serial_id,
                        RESULT_CODE_INVALID_DATA,
                    ) && wf_packet(p@)
                } else {
                    a matches ServerAction::Invoke { handler, header, content_type: ct, args }
                        && handler < registry@.len() && registry@[handler as int] == fname && header
                        == req.0 && ct == content_type
                }
            },
            BodyModel::Ping => (a matches ServerAction::Reply(p) && p@ == pong_model(
                req@.version,
                req@.serial_id,
            ) && wf_packet(p@)),
            BodyModel::Interrupt { .. } => a is Discard,
            BodyModel::InspectRequest { .. } => a is Discard,
            _ => a is Close,
        }),
{
    let SlackerPacket(header, body) = req;
    match body {
        SlackerPacketBody::Request(sreq) => {
            match registry.lookup(sreq.fname.as_slice()) {
                Some(idx) => {
                    let serializer = JsonSerializer;
                    match serializer.deserialize_vec(sreq.arguments.as_slice()) {
                        Ok(args) => ServerAction::Invoke {
                            handler: idx,
                            header,
                            content_type: sreq.content_type,
                            args,
                        },
                        Err(_) => ServerAction::Reply(
                            make_error(&header, RESULT_CODE_INVALID_DATA),
                        ),
                    }
                },
                None => ServerAction::Reply(make_error(&header, RESULT_CODE_NOT_FOUND)),
            }
        },
        SlackerPacketBody::Ping => {
            let pong = SlackerPacket(
                SlackerPacketHeader {
                    version: header.version,
                    serial_id: header.serial_id,
                    packet_type: PACKET_TYPE_PONG,
                },
                SlackerPacketBody::Pong,
            );
            ServerAction::Reply(pong)
        },
        SlackerPacketBody::Interrupt(_) => ServerAction::Discard,
        SlackerPacketBody::InspectRequest(_) => ServerAction::Discard,
        _ => ServerAction::Close,
    }
}

/// Builds the packet that answers a dispatched request once its handler has
/// run: a success Response around the serialized result, or an Error packet
/// when the handler failed or its result does not fit a response. Either
/// way the request's version and serial id are echoed and the packet is
/// well-formed, so encoding it cannot fail.
pub fn finish(header: &SlackerPacketHeader, content_type: u8, outcome: Option<Vec<u8>>) -> (p:
    SlackerPacket)
    ensures
        (match outcome {
            Some(data) => if data@.len() <= 0xffff_ffff {
                p@ == response_model(header.version, header.serial_id, content_type, data@)
            } else {
                p@ == error_model(header.version, header.serial_id, RESULT_CODE_EXCEPTION)
            },
            None => p@ == error_model(header.version, header.serial_id, RESULT_CODE_EXCEPTION),
        }),
        wf_packet(p@),
        p@.serial_id == header.serial_id && p@.version == header.version,
{
    match outcome {
        Some(data) => {
            if data.len() <= 0xffff_ffff {
                SlackerPacket(
                    SlackerPacketHeader {
                        version: header.version,
                        serial_id: header.serial_id,
                        packet_type: PACKET_TYPE_RESPONSE,
                    },
                    SlackerPacketBody::Response(
                        SlackerResponsePacket {
                            content_type,
                            result_code: RESULT_CODE_SUCCESS,
                            data,
                        },
                    ),
                )
            } else {
                make_error(header, RESULT_CODE_EXCEPTION)
            }
        },
        None => make_error(header, RESULT_CODE_EXCEPTION),
    }
}

/// The asynchronous dispatcher: decides each packet against the registry;
/// the embedding may run each handler without blocking the connection.
pub struct SlackerService {
    registry: Registry,
}

impl View for SlackerService {
    type V = Seq<Seq<u8>>;

    closed spec fn view(&self) -> Seq<Seq<u8>> {
        self.registry@
    }
}

impl SlackerService {
    /// A dispatcher over the given registry.
    pub fn new(registry: Registry) -> (s: SlackerService)
        ensures
            s@ == registry@,
    {
        SlackerService { registry }
    }

    /// Decides what answers one inbound packet; see `dispatch`.
    pub fn call(&self, req: SlackerPacket) -> (a: ServerAction)
        ensures
            (match req@.body {
                BodyModel::Request { content_type, fname, arguments } => {
                    if !contains_name(self@, fname) {
                        a matches ServerAction::Reply(p) && p@ == error_model(
                            req@.version,
                            req@.serial_id,
                            RESULT_CODE_NOT_FOUND,
                        ) && wf_packet(p@)
                    } else if !json_array_wf(arguments) {
                        a matches ServerAction::Reply(p) && p@ == error_model(
                            req@.version,
                            req@.serial_id,
                            RESULT_CODE_INVALID_DATA,
                        ) && wf_packet(p@)
                    } else {
                        a matches ServerAction::Invoke { handler, header, content_type: ct, args }
                            && handler < self@.len() && self@[handler as int] == fname && header
                            == req.0 && ct == content_type
                    }
                },
                BodyModel::Ping => (a matches ServerAction::Reply(p) && p@ == pong_model(
                    req@.version,
                    req@.serial_id,
                ) && wf_packet(p@)),
                BodyModel::Interrupt { .. } => a is Discard,
                BodyModel::InspectRequest { .. } => a is Discard,
                _ => a is Close,
            }),
    {
        dispatch(&self.registry, req)
    }
}

/// The worker-pool dispatcher: the same decisions as `SlackerService`, for
/// an embedding that runs handlers on a fixed-size pool of blocking worker
/// threads (FIFO, unbounded queueing when every worker is busy).
pub struct SlackerServiceSync {
    registry: Registry,
    threads: usize,
}

impl View for SlackerServiceSync {
    type V = Seq<Seq<u8>>;

    closed spec fn view(&self) -> Seq<Seq<u8>> {
        self.registry@
    }
}

impl SlackerServiceSync {
    /// The pool size this dispatcher was built for.
    pub closed spec fn spec_threads(&self) -> usize {
        self.threads
    }

    /// A dispatcher over the given registry whose embedding runs handlers
    /// on `threads` workers.
    pub fn new(registry: Registry, threads: usize) -> (s: SlackerServiceSync)
        ensures
            s@ == registry@,
            s.spec_threads() == threads,
    {
        SlackerServiceSync { registry, threads }
    }

    /// The pool size this dispatcher was built for.
    pub fn threads(&self) -> (n: usize)
        ensures
            n == self.spec_threads(),
    {
        self.threads
    }

    /// Decides what answers one inbound packet; see `dispatch`.
    pub fn call(&self, req: SlackerPacket) -> (a: ServerAction)
        ensures
            (match req@.body {
                BodyModel::Request { content_type, fname, arguments } => {
                    if !contains_name(self@, fname) {
                        a matches ServerAction::Reply(p) && p@ == error_model(
                            req@.version,
                            req@.serial_id,
                            RESULT_CODE_NOT_FOUND,
                        ) && wf_packet(p@)
                    } else if !json_array_wf(arguments) {
                        a matches ServerAction::Reply(p) && p@ == error_model(
                            req@.version,
                            req@.serial_id,
                            RESULT_CODE_INVALID_DATA,
                        ) && wf_packet(p@)
                    } else {
                        a matches ServerAction::Invoke { handler, header, content_type: ct, args }
                            && handler < self@.len() && self@[handler as int] == fname && header
                            == req.0 && ct == content_type
                    }
                },
                BodyModel::Ping => (a matches ServerAction::Reply(p) && p@ == pong_model(
                    req@.version,
                    req@.serial_id,
                ) && wf_packet(p@)),
                BodyModel::Interrupt { .. } => a is Discard,
                BodyModel::InspectRequest { .. } => a is Discard,
                _ => a is Close,
            }),
    {
        dispatch(&self.registry, req)
    }
}

} // verus!
