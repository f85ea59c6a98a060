//! Client-side multiplexing: serial id allocation, the pending-call table
//! that correlates responses to outstanding calls, and the decisions a
//! client takes for each packet arriving on its connection.
//!
//! The embedding owns the socket and the completion slots (one per
//! outstanding call, named here by a caller-chosen `ticket`); the library
//! decides which ticket each inbound packet resolves.

use vstd::prelude::*;

use crate::RpcError;
use crate::parser::{
    BodyModel, JSON_CONTENT_TYPE, PACKET_TYPE_PING, PACKET_TYPE_REQUEST, PROTOCOL_VERSION_5,
    PacketModel, SlackerPacket, SlackerPacketBody, SlackerPacketHeader, SlackerRequestPacket,
};
use crate::serializer::{JsonSerializer, json_array_text_of};
use crate::wire::push_all;

verus! {

/// What kind of reply an outstanding exchange awaits.
#[derive(Debug, Copy, Clone, PartialEq, Eq, Structural)]
pub enum CallKind {
    /// A call, resolved by a Response packet.
    Call,
    /// A ping, resolved by a Pong.
    Ping,
}

/// One outstanding exchange: the caller's completion ticket and the reply
/// kind that resolves it.
#[derive(Debug, Copy, Clone, PartialEq, Eq, Structural)]
pub struct Pending {
    pub ticket: u64,
    pub kind: CallKind,
}

/// The map a list of (serial id, entry) pairs represents, later entries
/// winning; the table keeps its serial ids unique, so order never matters.
pub open spec fn pending_map(s: Seq<(i32, Pending)>) -> Map<i32, Pending>
    decreases s.len(),
{
    if s.len() == 0 {
        Map::empty()
    } else {
        pending_map(s.drop_last()).insert(s.last().0, s.last().1)
    }
}

/// No serial id occurs twice.
pub open spec fn serials_unique(s: Seq<(i32, Pending)>) -> bool {
    forall|i: int, j: int| 0 <= i < j < s.len() ==> (#[trigger] s[i]).0 != (#[trigger] s[j]).0
}

proof fn lemma_pending_map_domain(s: Seq<(i32, Pending)>, k: i32)
    ensures
        pending_map(s).contains_key(k) <==> exists|i: int|
            0 <= i < s.len() && (#[trigger] s[i]).0 == k,
    decreases s.len(),
{
    if s.len() > 0 {
        lemma_pending_map_domain(s.drop_last(), k);
        if s.last().0 == k {
            assert(s[s.len() - 1].0 == k);
        } else if pending_map(s).contains_key(k) {
            let i = choose|i: int| 0 <= i < s.drop_last().len() && (#[trigger] s.drop_last()[i]).0
                == k;
            assert(s[i].0 == k);
        } else if exists|i: int| 0 <= i < s.len() && (#[trigger] s[i]).0 == k {
            let i = choose|i: int| 0 <= i < s.len() && (#[trigger] s[i]).0 == k;
            assert(i < s.len() - 1);
            assert(s.drop_last()[i].0 == k);
        }
    }
}

proof fn lemma_pending_map_get(s: Seq<(i32, Pending)>, i: int)
    requires
        serials_unique(s),
        0 <= i < s.len(),
    ensures
        pending_map(s).contains_key(s[i].0),
        pending_map(s)[s[i].0] == s[i].1,
    decreases s.len(),
{
    if i == s.len() - 1 {
        assert(s.last() == s[i]);
    } else {
        assert(s.drop_last()[i] == s[i]);
        assert forall|x: int, y: int| 0 <= x < y < s.drop_last().len() implies (#[trigger] s
            .drop_last()[x]).0 != (#[trigger] s.drop_last()[y]).0 by {
            assert(s.drop_last()[x] == s[x] && s.drop_last()[y] == s[y]);
        }
        lemma_pending_map_get(s.drop_last(), i);
        assert(s[i].0 != s.last().0);
    }
}

proof fn lemma_unique_drop_last(s: Seq<(i32, Pending)>)
    requires
        serials_unique(s),
        s.len() > 0,
    ensures
        serials_unique(s.drop_last()),
{
    assert forall|x: int, y: int| 0 <= x < y < s.drop_last().len() implies (#[trigger] s
        .drop_last()[x]).0 != (#[trigger] s.drop_last()[y]).0 by {
        assert(s.drop_last()[x] == s[x] && s.drop_last()[y] == s[y]);
    }
}

proof fn lemma_pending_map_remove(s: Seq<(i32, Pending)>, i: int)
    requires
        serials_unique(s),
        0 <= i < s.len(),
    ensures
        serials_unique(s.remove(i)),
        pending_map(s.remove(i)) == pending_map(s).remove(s[i].0),
    decreases s.len(),
{
    let k = s[i].0;
    lemma_unique_drop_last(s);
    assert forall|x: int, y: int| 0 <= x < y < s.remove(i).len() implies (#[trigger] s.remove(
        i,
    )[x]).0 != (#[trigger] s.remove(i)[y]).0 by {
        let x0 = if x < i { x } else { x + 1 };
        let y0 = if y < i { y } else { y + 1 };
        assert(s.remove(i)[x] == s[x0] && s.remove(i)[y] == s[y0]);
    }
    if i == s.len() - 1 {
        assert(s.remove(i) =~= s.drop_last());
        lemma_pending_map_domain(s.drop_last(), k);
        assert(!pending_map(s.drop_last()).contains_key(k)) by {
            if pending_map(s.drop_last()).contains_key(k) {
                let j = choose|j: int| 0 <= j < s.drop_last().len() && (#[trigger] s.drop_last()[
                    j
                ]).0 == k;
                assert(s[j].0 == k && s[i].0 == k && j < i);
            }
        }
        assert(pending_map(s.remove(i)) =~= pending_map(s).remove(k));
    } else {
        assert(s.remove(i).drop_last() =~= s.drop_last().remove(i));
        assert(s.remove(i).last() == s.last());
        lemma_pending_map_remove(s.drop_last(), i);
        assert(s.drop_last()[i] == s[i]);
        assert(s[i].0 != s.last().0);
        assert(pending_map(s.remove(i)) =~= pending_map(s).remove(k)) by {
            assert(pending_map(s.remove(i)) == pending_map(s.drop_last().remove(i)).insert(
                s.last().0,
                s.last().1,
            ));
            assert(pending_map(s.drop_last().remove(i)) == pending_map(s.drop_last()).remove(k));
            assert(pending_map(s.drop_last()).remove(k).insert(s.last().0, s.last().1)
                =~= pending_map(s.drop_last()).insert(s.last().0, s.last().1).remove(k));
        }
    }
}

/// The pending-call table of one client connection: for every outstanding
/// exchange, its serial id mapped to the caller's completion ticket and the
/// reply kind that resolves it. Entries are added when a call or ping is
/// issued and removed when a correlated reply arrives or the connection
/// dies.
#[derive(Debug)]
pub struct PendingTable {
    entries: Vec<(i32, Pending)>,
}

impl View for PendingTable {
    type V = Map<i32, Pending>;

    closed spec fn view(&self) -> Map<i32, Pending> {
        pending_map(self.entries@)
    }
}

impl PendingTable {
    /// The table never holds two entries under one serial id.
    pub closed spec fn wf(&self) -> bool {
        serials_unique(self.entries@)
    }

    /// An empty table.
    pub fn new() -> (t: PendingTable)
        ensures
            t.wf(),
            t@ == Map::<i32, Pending>::empty(),
    {
        PendingTable { entries: Vec::new() }
    }

    /// The index of the entry registered under `serial`, if any.
    fn find(&self, serial: i32) -> (r: Option<usize>)
        ensures
            (match r {
                Some(i) => i < self.entries@.len() && self.entries@[i as int].0 == serial,
                None => forall|j: int|
                    0 <= j < self.entries@.len() ==> (#[trigger] self.entries@[j]).0 != serial,
            }),
    {
        let n = self.entries.len();
        let mut i: usize = 0;
        while i < n
            invariant
                i <= n == self.entries@.len(),
                forall|j: int| 0 <= j < i ==> (#[trigger] self.entries@[j]).0 != serial,
            decreases n - i,
        {
            if self.entries[i].0 == serial {
                return Some(i);
            }
            i = i + 1;
        }
        None
    }

    /// Whether an exchange is outstanding under `serial`.
    pub fn contains(&self, serial: i32) -> (r: bool)
        ensures
            r == self@.contains_key(serial),
    {
        proof {
            lemma_pending_map_domain(self.entries@, serial);
        }
        match self.find(serial) {
            Some(_) => true,
            None => false,
        }
    }

    /// Registers a fresh exchange under its serial id; refuses a serial id
    /// that is still outstanding.
    pub fn insert(&mut self, serial: i32, entry: Pending) -> (r: bool)
        requires
            old(self).wf(),
        ensures
            final(self).wf(),
            r ==> !old(self)@.contains_key(serial) && final(self)@ == old(self)@.insert(
                serial,
                entry,
            ),
            !r ==> old(self)@.contains_key(serial) && final(self)@ == old(self)@,
    {
        proof {
            lemma_pending_map_domain(self.entries@, serial);
        }
        match self.find(serial) {
            Some(_) => false,
            None => {
                let ghost s0 = self.entries@;
                self.entries.push((serial, entry));
                proof {
                    assert(self.entries@.drop_last() =~= s0);
                    assert(self.entries@.last() == (serial, entry));
                    assert forall|x: int, y: int| 0 <= x < y < self.entries@.len() implies (
                    #[trigger] self.entries@[x]).0 != (#[trigger] self.entries@[y]).0 by {
                        if y < self.entries@.len() - 1 {
                            assert(self.entries@[x] == s0[x] && self.entries@[y] == s0[y]);
                        } else {
                            assert(self.entries@[x] == s0[x]);
                        }
                    }
                }
                true
            },
        }
    }

    /// Resolves the outstanding exchange under `serial`: hands back its
    /// entry and forgets it. The entry is the one `insert` registered under
    /// exactly this serial id — correlation is by serial id alone.
    pub fn complete(&mut self, serial: i32) -> (r: Option<Pending>)
        requires
            old(self).wf(),
        ensures
            final(self).wf(),
            (match r {
                Some(en) => old(self)@.contains_key(serial) && en == old(self)@[serial] && final(self)@ == old(self)@.remove(serial),
                None => !old(self)@.contains_key(serial) && final(self)@ == old(self)@,
            }),
    {
        proof {
            lemma_pending_map_domain(self.entries@, serial);
        }
        match self.find(serial) {
            Some(i) => {
                proof {
                    lemma_pending_map_get(self.entries@, i as int);
                    lemma_pending_map_remove(self.entries@, i as int);
                }
                let entry = self.entries.remove(i);
                Some(entry.1)
            },
            None => None,
        }
    }

    /// Empties the table, handing back every outstanding entry, so that the
    /// embedding can reject each pending exchange when the connection dies.
    pub fn drain(&mut self) -> (r: Vec<(i32, Pending)>)
        requires
            old(self).wf(),
        ensures
            final(self).wf(),
            final(self)@ == Map::<i32, Pending>::empty(),
            serials_unique(r@),
            pending_map(r@) == old(self)@,
    {
        let mut r: Vec<(i32, Pending)> = Vec::new();
        core::mem::swap(&mut self.entries, &mut r);
        r
    }
}

/// Under concurrent calls, each response reaches its own caller: two
/// exchanges registered under different serial ids keep their own entries,
/// so the entry a response resolves is determined by its serial id alone.
pub proof fn lemma_no_cross_delivery(m: Map<i32, Pending>, s1: i32, s2: i32, e1: Pending, e2: Pending)
    requires
        s1 != s2,
    ensures
        m.insert(s1, e1).insert(s2, e2)[s1] == e1,
        m.insert(s1, e1).insert(s2, e2)[s2] == e2,
{
}

/// The fully-qualified function name: namespace, slash, function.
pub open spec fn fname_model(ns: Seq<u8>, name: Seq<u8>) -> Seq<u8> {
    ns + seq![47u8] + name
}

/// What a client does with one packet arriving on its connection.
#[derive(Debug)]
pub enum ClientEvent {
    /// A Response resolved the call under its serial id: deliver the
    /// payload bytes to the ticket's owner.
    Deliver { ticket: u64, content_type: u8, result_code: u8, data: Vec<u8> },
    /// An Error packet resolved the exchange under its serial id: reject
    /// the ticket's owner with the carried result code.
    Reject { ticket: u64, result_code: u8 },
    /// A Pong resolved the ping under its serial id.
    PongFor { ticket: u64 },
    /// A reply correlated to an exchange awaiting a different kind (a Pong
    /// answering a call, a Response answering a ping, an InspectResponse
    /// answering either): the entry is removed and the ticket's owner is
    /// rejected rather than resolved with the wrong payload.
    Mismatch { ticket: u64 },
    /// No exchange is outstanding under the packet's serial id (the caller
    /// gave up, or the packet is stray): discarded.
    Ignore,
    /// The packet must not reach a client; the connection closes.
    Fatal,
}

/// Builds clients that speak JSON payloads; the embedding opens the
/// connection and drives the transport.
#[derive(Debug)]
pub struct ClientManager {
    serializer: JsonSerializer,
}

impl ClientManager {
    /// A manager with the JSON payload serializer.
    pub fn new() -> (m: ClientManager) {
        ClientManager { serializer: JsonSerializer }
    }

    /// The protocol core of a fresh connection.
    pub fn client(&self) -> (c: Client)
        ensures
            c.wf(),
            c.pending() == Map::<i32, Pending>::empty(),
            c.next_serial() == 0,
    {
        Client::new()
    }
}

/// The protocol core of one client connection: allocates serial ids,
/// builds outbound Request and Ping packets, and resolves inbound packets
/// against the pending-call table. The embedding owns the socket.
#[derive(Debug)]
pub struct Client {
    serial_id_gen: i32,
    pending: PendingTable,
    serializer: JsonSerializer,
}

impl Client {
    /// The pending table is well-formed.
    pub closed spec fn wf(&self) -> bool {
        self.pending.wf()
    }

    /// The outstanding exchanges: serial id to ticket and awaited kind.
    pub closed spec fn pending(&self) -> Map<i32, Pending> {
        self.pending@
    }

    /// The serial id the next call will take.
    pub closed spec fn next_serial(&self) -> i32 {
        self.serial_id_gen
    }

    /// The serial id after `s`: the counter increases monotonically and
    /// wraps around the signed 32-bit space.
    pub open spec fn serial_after(s: i32) -> i32 {
        if s == i32::MAX {
            i32::MIN
        } else {
            (s + 1) as i32
        }
    }

    /// A fresh client core: counter at zero, nothing pending.
    pub fn new() -> (c: Client)
        ensures
            c.wf(),
            c.pending() == Map::<i32, Pending>::empty(),
            c.next_serial() == 0,
    {
        Client { serial_id_gen: 0, pending: PendingTable::new(), serializer: JsonSerializer }
    }

    /// Takes the next serial id, advancing the counter.
    fn take_serial(&mut self) -> (s: i32)
        ensures
            s == old(self).next_serial(),
            final(self).next_serial() == Client::serial_after(old(self).next_serial()),
            final(self).pending() == old(self).pending(),
            final(self).wf() == old(self).wf(),
    {
        let s = self.serial_id_gen;
        if s == i32::MAX {
            self.serial_id_gen = i32::MIN;
        } else {
            self.serial_id_gen = s + 1;
        }
        s
    }

    /// Builds the Request packet of one call and registers the caller's
    /// completion ticket under a fresh serial id.
    ///
    /// The name on the wire is `namespace/function`; the argument bytes are
    /// exactly the JSON text of the array holding `args`, a serialization
    /// that cannot fail, so the call succeeds whenever the name fits its
    /// length prefix and the fresh serial id is free. It is refused, with the serial id still consumed and nothing
    /// registered, exactly when the name would overflow its length prefix
    /// (`Wire`), or when the fresh serial id is somehow still outstanding
    /// after the counter wrapped (`Transport`). In the extreme the
    /// serialized arguments may overflow their own length prefix; such a
    /// packet is refused later, by the codec.
    pub fn rpc_call(
        &mut self,
        ns_name: &[u8],
        fn_name: &[u8],
        args: Vec<serde_json::Value>,
        ticket: u64,
    ) -> (r: Result<SlackerPacket, RpcError>)
        requires
            old(self).wf(),
        ensures
            final(self).wf(),
            final(self).next_serial() == Client::serial_after(old(self).next_serial()),
            fname_model(ns_name@, fn_name@).len() <= 0xffff && !old(self).pending().contains_key(
                old(self).next_serial(),
            ) ==> r is Ok,
            (match r {
                Ok(p) => {
                    &&& p@.version == PROTOCOL_VERSION_5
                    &&& p@.serial_id == old(self).next_serial()
                    &&& p@.packet_type == PACKET_TYPE_REQUEST
                    &&& (p@.body matches BodyModel::Request { content_type, fname, arguments }
                        && content_type == JSON_CONTENT_TYPE && fname == fname_model(
                        ns_name@,
                        fn_name@,
                    ) && fname.len() <= 0xffff && arguments == json_array_text_of(args@))
                    &&& !old(self).pending().contains_key(old(self).next_serial())
                    &&& final(self).pending() == old(self).pending().insert(
                        old(self).next_serial(),
                        (Pending { ticket, kind: CallKind::Call }),
                    )
                },
                Err(e) => {
                    &&& final(self).pending() == old(self).pending()
                    &&& (e == RpcError::Wire || e == RpcError::Transport)
                    &&& (e == RpcError::Wire <==> fname_model(ns_name@, fn_name@).len() > 0xffff)
                    &&& (e == RpcError::Transport ==> old(self).pending().contains_key(
                        old(self).next_serial(),
                    ))
                },
            }),
    {
        let sid = self.take_serial();
        if ns_name.len() > 0xffff || fn_name.len() > 0xffff {
            return Err(RpcError::Wire);
        }
        if ns_name.len() + fn_name.len() + 1 > 0xffff {
            return Err(RpcError::Wire);
        }
        let mut fname: Vec<u8> = Vec::new();
        push_all(&mut fname, ns_name);
        fname.push(47u8);
        push_all(&mut fname, fn_name);
        proof {
            assert(fname@ =~= fname_model(ns_name@, fn_name@));
        }
        let serialized = self.serializer.serialize_args(args);
        if !self.pending.insert(sid, Pending { ticket, kind: CallKind::Call }) {
            return Err(RpcError::Transport);
        }
        let header = SlackerPacketHeader {
            version: PROTOCOL_VERSION_5,
            serial_id: sid,
            packet_type: PACKET_TYPE_REQUEST,
        };
        let body = SlackerPacketBody::Request(
            SlackerRequestPacket {
                content_type: JSON_CONTENT_TYPE,
                fname,
                arguments: serialized,
            },
        );
        Ok(SlackerPacket(header, body))
    }

    /// Builds a Ping packet and registers the caller's completion ticket
    /// under a fresh serial id; the matching Pong resolves it. The ping is
    /// refused exactly when the fresh serial id is somehow still
    /// outstanding after the counter wrapped.
    pub fn ping(&mut self, ticket: u64) -> (r: Result<SlackerPacket, RpcError>)
        requires
            old(self).wf(),
        ensures
            final(self).wf(),
            final(self).next_serial() == Client::serial_after(old(self).next_serial()),
            !old(self).pending().contains_key(old(self).next_serial()) ==> r is Ok,
            (match r {
                Ok(p) => {
                    &&& p@ == (PacketModel {
                        version: PROTOCOL_VERSION_5,
                        serial_id: old(self).next_serial(),
                        packet_type: PACKET_TYPE_PING,
                        body: BodyModel::Ping,
                    })
                    &&& !old(self).pending().contains_key(old(self).next_serial())
                    &&& final(self).pending() == old(self).pending().insert(
                        old(self).next_serial(),
                        (Pending { ticket, kind: CallKind::Ping }),
                    )
                },
                Err(e) => e == RpcError::Transport && final(self).pending() == old(self).pending()
                    && old(self).pending().contains_key(old(self).next_serial()),
            }),
    {
        let sid = self.take_serial();
        if !self.pending.insert(sid, Pending { ticket, kind: CallKind::Ping }) {
            return Err(RpcError::Transport);
        }
        let header = SlackerPacketHeader {
            version: PROTOCOL_VERSION_5,
            serial_id: sid,
            packet_type: PACKET_TYPE_PING,
        };
        Ok(SlackerPacket(header, SlackerPacketBody::Ping))
    }

    /// Resolves one packet arriving on the connection against the pending
    /// table. Response, Error, Pong and InspectResponse packets resolve —
    /// and remove — the entry registered under exactly their serial id; a
    /// Response resolves a call and a Pong a ping, while a correlated reply
    /// of any other kind rejects the caller; a packet with no matching
    /// entry is discarded. Request and InspectRequest packets travel the
    /// wrong direction and kill the connection.
    pub fn handle_incoming(&mut self, packet: SlackerPacket) -> (e: ClientEvent)
        requires
            old(self).wf(),
        ensures
            final(self).wf(),
            (e matches ClientEvent::Deliver { .. }) ==> packet@.body is Response && old(
                self,
            ).pending().contains_key(packet@.serial_id) && old(
                self,
            ).pending()[packet@.serial_id].kind == CallKind::Call,
            (e matches ClientEvent::Reject { .. }) ==> packet@.body is Error && old(
                self,
            ).pending().contains_key(packet@.serial_id),
            (match packet@.body {
                BodyModel::Response { content_type, result_code, data } => {
                    if old(self).pending().contains_key(packet@.serial_id) {
                        if old(self).pending()[packet@.serial_id].kind == CallKind::Call {
                            e matches ClientEvent::Deliver { ticket, content_type: ct, result_code: rc, data: d }
                                && ticket == old(self).pending()[packet@.serial_id].ticket && ct
                                == content_type && rc == result_code && d@ == data && final(self).pending() == old(self).pending().remove(packet@.serial_id)
                        } else {
                            e matches ClientEvent::Mismatch { ticket } && ticket == old(self).pending()[packet@.serial_id].ticket && final(self).pending() == old(self).pending().remove(packet@.serial_id)
                        }
                    } else {
                        e is Ignore && final(self).pending() == old(self).pending()
                    }
                },
                BodyModel::Error { result_code } => {
                    if old(self).pending().contains_key(packet@.serial_id) {
                        e matches ClientEvent::Reject { ticket, result_code: rc } && ticket == old(self).pending()[packet@.serial_id].ticket && rc == result_code && final(self).pending() == old(self).pending().remove(packet@.serial_id)
                    } else {
                        e is Ignore && final(self).pending() == old(self).pending()
                    }
                },
                BodyModel::Pong => {
                    if old(self).pending().contains_key(packet@.serial_id) {
                        if old(self).pending()[packet@.serial_id].kind == CallKind::Ping {
                            e matches ClientEvent::PongFor { ticket } && ticket == old(self).pending()[packet@.serial_id].ticket && final(self).pending() == old(self).pending().remove(packet@.serial_id)
                        } else {
                            e matches ClientEvent::Mismatch { ticket } && ticket == old(self).pending()[packet@.serial_id].ticket && final(self).pending() == old(self).pending().remove(packet@.serial_id)
                        }
                    } else {
                        e is Ignore && final(self).pending() == old(self).pending()
                    }
                },
                BodyModel::InspectResponse { .. } => {
                    if old(self).pending().contains_key(packet@.serial_id) {
                        e matches ClientEvent::Mismatch { ticket } && ticket == old(self).pending()[packet@.serial_id].ticket && final(self).pending() == old(self).pending().remove(packet@.serial_id)
                    } else {
                        e is Ignore && final(self).pending() == old(self).pending()
                    }
                },
                BodyModel::Request { .. } => e is Fatal && final(self).pending() == old(self).pending(),
                BodyModel::InspectRequest { .. } => e is Fatal && final(self).pending() == old(self).pending(),
                _ => e is Ignore && final(self).pending() == old(self).pending(),
            }),
    {
        let SlackerPacket(header, body) = packet;
        match body {
            SlackerPacketBody::Response(resp) => {
                match self.pending.complete(header.serial_id) {
                    Some(entry) => match entry.kind {
                        CallKind::Call => ClientEvent::Deliver {
                            ticket: entry.ticket,
                            content_type: resp.content_type,
                            result_code: resp.result_code,
                            data: resp.data,
                        },
                        CallKind::Ping => ClientEvent::Mismatch { ticket: entry.ticket },
                    },
                    None => ClientEvent::Ignore,
                }
            },
            SlackerPacketBody::Error(err) => {
                match self.pending.complete(header.serial_id) {
                    Some(entry) => ClientEvent::Reject {
                        ticket: entry.ticket,
                        result_code: err.result_code,
                    },
                    None => ClientEvent::Ignore,
                }
            },
            SlackerPacketBody::Pong => {
                match self.pending.complete(header.serial_id) {
                    Some(entry) => match entry.kind {
                        CallKind::Ping => ClientEvent::PongFor { ticket: entry.ticket },
                        CallKind::Call => ClientEvent::Mismatch { ticket: entry.ticket },
                    },
                    None => ClientEvent::Ignore,
                }
            },
            SlackerPacketBody::InspectResponse(_) => {
                match self.pending.complete(header.serial_id) {
                    Some(entry) => ClientEvent::Mismatch { ticket: entry.ticket },
                    None => ClientEvent::Ignore,
                }
            },
            SlackerPacketBody::Request(_) => ClientEvent::Fatal,
            SlackerPacketBody::InspectRequest(_) => ClientEvent::Fatal,
            _ => ClientEvent::Ignore,
        }
    }

    /// The connection died: every outstanding exchange's entry is handed
    /// back, exactly once each, so the embedding rejects them all; nothing
    /// stays pending.
    pub fn connection_lost(&mut self) -> (r: Vec<(i32, Pending)>)
        requires
            old(self).wf(),
        ensures
            final(self).wf(),
            final(self).pending() == Map::<i32, Pending>::empty(),
            serials_unique(r@),
            pending_map(r@) == old(self).pending(),
            final(self).next_serial() == old(self).next_serial(),
    {
        self.pending.drain()
    }
}

} // verus!
