//! Connections: the handshake that opens one, the states it goes through,
//! and the table that holds one connection for each peer.

use crate::internal::address::PeerAddress;
use crate::internal::{Message, MessageView, MetaInfo, PacketInfo, PROTOCOL_VERSION};
use crate::protocol::codec::{decode_fields, spec_encode, EncodeError, FieldView};
use crate::protocol::unconnected::{
    IncompatibleProtocol, OpenConnectionReply1, OpenConnectionReply2, OpenConnectionRequest1,
    OpenConnectionRequest2, UnconnectedPing, UnconnectedPong,
};
use crate::protocol::wire::signed64;
use crate::protocol::{magic_bytes, ClientPacket, PacketID, ServerPacket};
use crate::server::socket::{receive, spec_receive};
use std::collections::HashMap;
use vstd::prelude::*;

/// What holds of the handshake and of the table, whatever the datagrams.
pub mod laws;

verus! {

/// The largest size of datagram that the server agrees to.
pub const MAXIMUM_MTU: u16 = 1492;

/// Enumeration showing the connection status
#[derive(Debug, Clone, Copy, PartialEq, Eq, Structural)]
pub enum State {
    Unconnected,
    Connected,
    FullyConnected,
    Disconnected,
}

/// Network connection
#[derive(Debug, Clone, Copy, PartialEq, Eq, Structural)]
pub struct Connection {
    pub guid: u64,
    pub addr: PeerAddress,
    pub mtu: u16,
    pub state: State,
}

/// What the handshake answers to one datagram: the datagram to send back
/// to the peer, if any, and the connection to enter in the table, if any.
/// A connection in the state `Disconnected` is entered by taking the peer
/// out of the table.
#[derive(Debug, Clone)]
pub struct Outcome {
    pub reply: Option<Vec<u8>>,
    pub session: Option<Connection>,
}

/// What an [`Outcome`] holds, as mathematics.
pub struct OutcomeView {
    pub reply: Option<Seq<u8>>,
    pub session: Option<Connection>,
}

impl View for Outcome {
    type V = OutcomeView;

    open spec fn view(&self) -> OutcomeView {
        OutcomeView {
            reply: match self.reply {
                Some(bytes) => Some(bytes@),
                None => None,
            },
            session: self.session,
        }
    }
}

/// No answer and no connection: the datagram is dropped.
pub open spec fn silent() -> OutcomeView {
    OutcomeView { reply: None, session: None }
}

/// The answer that is the given packet, where it can be written, and no
/// connection.
pub open spec fn answer(packet: Result<Seq<u8>, EncodeError>) -> OutcomeView {
    match packet {
        Ok(bytes) => OutcomeView { reply: Some(bytes), session: None },
        Err(_) => silent(),
    }
}

/// The size that the server agrees to when a peer asks for `asked`: the
/// lesser of `asked` and [`MAXIMUM_MTU`].
pub open spec fn agreed_mtu(asked: u16) -> u16 {
    if asked < MAXIMUM_MTU {
        asked
    } else {
        MAXIMUM_MTU
    }
}

/// The fields of the answer to a probe.
pub open spec fn pong_fields(time: i64, server_guid: u64, descriptor: Seq<char>) -> Seq<FieldView> {
    seq![
        FieldView::I64(time),
        FieldView::I64(signed64(server_guid)),
        FieldView::Magic(magic_bytes()),
        FieldView::Text(descriptor),
    ]
}

/// The fields of the answer to a client that speaks another version.
pub open spec fn incompatible_fields(server_guid: u64) -> Seq<FieldView> {
    seq![
        FieldView::U8(PROTOCOL_VERSION),
        FieldView::Magic(magic_bytes()),
        FieldView::U64(server_guid),
    ]
}

/// The fields of the answer to the first request of the handshake.
pub open spec fn reply1_fields(server_guid: u64, mtu: u16) -> Seq<FieldView> {
    seq![
        FieldView::Magic(magic_bytes()),
        FieldView::U64(server_guid),
        FieldView::Bool(false),
        FieldView::U16(mtu),
    ]
}

/// The fields of the answer to the second request of the handshake.
pub open spec fn reply2_fields(server_guid: u64, client: PeerAddress, mtu: u16) -> Seq<FieldView> {
    seq![
        FieldView::Magic(magic_bytes()),
        FieldView::U64(server_guid),
        FieldView::Address(client),
        FieldView::U16(mtu),
        FieldView::Bool(false),
    ]
}

/// A probe is answered with the server's descriptor and the probe's own
/// clock value. A probe that cannot be read, or that does not carry the
/// marker, is dropped; so is one whose answer cannot be written.
pub open spec fn on_ping(body: Seq<u8>, server_guid: u64, descriptor: Seq<char>) -> OutcomeView {
    match decode_fields(<UnconnectedPing as ClientPacket>::schema(), body) {
        Err(_) => silent(),
        Ok(fields) => if fields[1] != FieldView::Magic(magic_bytes()) {
            silent()
        } else {
            answer(
                spec_encode(
                    PacketID::UnconnectedPong.spec_value(),
                    pong_fields(fields[0]->I64_0, server_guid, descriptor),
                ),
            )
        },
    }
}

/// The first request of the handshake. One that cannot be read, or that
/// does not carry the marker, is dropped. One that names another version
/// of the protocol is answered with the version that the server speaks, and
/// opens no connection. Any other is answered with the size that the server
/// agrees to, and opens a connection for the peer, in the state
/// `Connected`, with that size and the identifier `fresh_guid`.
pub open spec fn on_request1(
    body: Seq<u8>,
    from: PeerAddress,
    server_guid: u64,
    fresh_guid: u64,
) -> OutcomeView {
    match decode_fields(<OpenConnectionRequest1 as ClientPacket>::schema(), body) {
        Err(_) => silent(),
        Ok(fields) => if fields[0] != FieldView::Magic(magic_bytes()) {
            silent()
        } else if fields[1] != FieldView::U8(PROTOCOL_VERSION) {
            answer(
                spec_encode(
                    PacketID::IncompatibleProtocol.spec_value(),
                    incompatible_fields(server_guid),
                ),
            )
        } else {
            let mtu = agreed_mtu(fields[2]->Mtu_0.0);
            OutcomeView {
                reply: answer(
                    spec_encode(
                        PacketID::OpenConnectionReply1.spec_value(),
                        reply1_fields(server_guid, mtu),
                    ),
                ).reply,
                session: Some(
                    Connection { guid: fresh_guid, addr: from, mtu, state: State::Connected },
                ),
            }
        },
    }
}

/// The second request of the handshake. One that cannot be read, or that
/// does not carry the marker, is dropped, and so is one from a peer that
/// has no connection in the state `Connected`. Any other is answered with
/// the size that the server agrees to and with the address of the peer as
/// the server sees it, and that size is entered in the peer's connection.
pub open spec fn on_request2(
    body: Seq<u8>,
    from: PeerAddress,
    known: Option<Connection>,
    server_guid: u64,
) -> OutcomeView {
    match decode_fields(<OpenConnectionRequest2 as ClientPacket>::schema(), body) {
        Err(_) => silent(),
        Ok(fields) => if fields[0] != FieldView::Magic(magic_bytes()) {
            silent()
        } else {
            match known {
                Some(connection) => if connection.state == State::Connected && connection.addr
                    == from {
                    let mtu = agreed_mtu(fields[2]->U16_0);
                    OutcomeView {
                        reply: answer(
                            spec_encode(
                                PacketID::OpenConnectionReply2.spec_value(),
                                reply2_fields(server_guid, from, mtu),
                            ),
                        ).reply,
                        session: Some(Connection { mtu, ..connection }),
                    }
                } else {
                    silent()
                },
                None => silent(),
            }
        },
    }
}

/// The client's confirmation takes a connection from `Connected` to
/// `FullyConnected`; it changes nothing else and is not answered.
pub open spec fn on_confirmation(from: PeerAddress, known: Option<Connection>) -> OutcomeView {
    match known {
        Some(connection) => if connection.state == State::Connected && connection.addr == from {
            OutcomeView {
                reply: None,
                session: Some(Connection { state: State::FullyConnected, ..connection }),
            }
        } else {
            silent()
        },
        None => silent(),
    }
}

/// A disconnect takes the peer's connection, if it has one, to
/// `Disconnected`; it is not answered.
pub open spec fn on_disconnect(from: PeerAddress, known: Option<Connection>) -> OutcomeView {
    match known {
        Some(connection) => if connection.addr == from {
            OutcomeView {
                reply: None,
                session: Some(Connection { state: State::Disconnected, ..connection }),
            }
        } else {
            silent()
        },
        None => silent(),
    }
}

/// What the handshake answers to the datagram `buffer` that came from
/// `from`, where `known` is the connection that the table holds for that
/// peer. An empty datagram and a datagram with any tag that is not named
/// here are dropped.
pub open spec fn spec_handle_unconnected(
    buffer: Seq<u8>,
    from: PeerAddress,
    known: Option<Connection>,
    server_guid: u64,
    descriptor: Seq<char>,
    fresh_guid: u64,
) -> OutcomeView {
    if buffer.len() == 0 {
        silent()
    } else {
        let body = buffer.skip(1);
        match PacketID::spec_from(buffer[0]) {
            PacketID::UnconnectedPing | PacketID::UnconnectedPing2 => on_ping(
                body,
                server_guid,
                descriptor,
            ),
            PacketID::OpenConnectionRequest1 => on_request1(body, from, server_guid, fresh_guid),
            PacketID::OpenConnectionRequest2 => on_request2(body, from, known, server_guid),
            PacketID::NewIncomingConnection => on_confirmation(from, known),
            PacketID::Disconnect => on_disconnect(from, known),
            _ => silent(),
        }
    }
}

/// Whether `marker` is the protocol's marker.
pub fn is_magic(marker: &[u8; 16]) -> (r: bool)
    ensures
        r == (marker@ == magic_bytes()),
{
    let expected = crate::protocol::magic();
    let mut i: usize = 0;
    while i < 16
        invariant
            i <= 16,
            expected@ == magic_bytes(),
            forall|j: int| 0 <= j < i ==> marker@[j] == expected@[j],
        decreases 16 - i,
    {
        if marker[i] != expected[i] {
            return false;
        }
        i += 1;
    }
    assert(marker@ =~= magic_bytes());
    true
}

/// The lesser of `asked` and [`MAXIMUM_MTU`].
pub fn clamp_mtu(asked: u16) -> (r: u16)
    ensures
        r == agreed_mtu(asked),
        r <= MAXIMUM_MTU,
        r <= asked,
{
    if asked < MAXIMUM_MTU {
        asked
    } else {
        MAXIMUM_MTU
    }
}

/// The signed number with the same 64 bits as `n`.
fn to_signed(n: u64) -> (r: i64)
    ensures
        r == signed64(n),
{
    if n >= 0x8000_0000_0000_0000 {
        ((n - 0x8000_0000_0000_0000) as i64) + i64::MIN
    } else {
        n as i64
    }
}

/// The outcome with no answer and no connection.
fn drop_datagram() -> (r: Outcome)
    ensures
        r@ == silent(),
{
    Outcome { reply: None, session: None }
}

impl Connection {
    /// Creates connection with following parameters
    pub fn new(guid: u64, addr: PeerAddress, mtu: u16) -> (r: Connection)
        ensures
            r == (Connection { guid, addr, mtu, state: State::Unconnected }),
    {
        Connection { guid, addr, mtu, state: State::Unconnected }
    }

    /// Answers a probe.
    fn handle_ping(body: &[u8], server_guid: u64, descriptor: &String) -> (r: Outcome)
        ensures
            r@ == on_ping(body@, server_guid, descriptor@),
    {
        let ping = match UnconnectedPing::parse(body) {
            Ok(ping) => ping,
            Err(_) => {
                return drop_datagram();
            },
        };
        if !is_magic(&ping.magic) {
            return drop_datagram();
        }
        let pong = UnconnectedPong::new(ping.time, to_signed(server_guid), descriptor.clone());
        assert(pong.fields() =~= pong_fields(ping.time, server_guid, descriptor@));
        match pong.compose() {
            Ok(bytes) => Outcome { reply: Some(bytes), session: None },
            Err(_) => drop_datagram(),
        }
    }

    /// Answers the first request of the handshake.
    fn handle_request1(body: &[u8], from: PeerAddress, server_guid: u64, fresh_guid: u64) -> (r:
        Outcome)
        ensures
            r@ == on_request1(body@, from, server_guid, fresh_guid),
    {
        let request = match OpenConnectionRequest1::parse(body) {
            Ok(request) => request,
            Err(_) => {
                return drop_datagram();
            },
        };
        if !is_magic(&request.magic) {
            return drop_datagram();
        }
        if request.protocol_version != PROTOCOL_VERSION {
            let refusal = IncompatibleProtocol::new(PROTOCOL_VERSION, server_guid);
            assert(refusal.fields() =~= incompatible_fields(server_guid));
            return match refusal.compose() {
                Ok(bytes) => Outcome { reply: Some(bytes), session: None },
                Err(_) => drop_datagram(),
            };
        }
        let mtu = clamp_mtu(request.mtu.0);
        let reply = OpenConnectionReply1::new(server_guid, false, mtu);
        assert(reply.fields() =~= reply1_fields(server_guid, mtu));
        let session = Some(Connection { guid: fresh_guid, addr: from, mtu, state: State::Connected });
        match reply.compose() {
            Ok(bytes) => Outcome { reply: Some(bytes), session },
            Err(_) => Outcome { reply: None, session },
        }
    }

    /// Answers the second request of the handshake.
    fn handle_request2(
        body: &[u8],
        from: PeerAddress,
        known: Option<Connection>,
        server_guid: u64,
    ) -> (r: Outcome)
        ensures
            r@ == on_request2(body@, from, known, server_guid),
    {
        let request = match OpenConnectionRequest2::parse(body) {
            Ok(request) => request,
            Err(_) => {
                return drop_datagram();
            },
        };
        if !is_magic(&request.magic) {
            return drop_datagram();
        }
        let connection = match known {
            Some(connection) => connection,
            None => {
                return drop_datagram();
            },
        };
        if connection.state != State::Connected || connection.addr != from {
            return drop_datagram();
        }
        let mtu = clamp_mtu(request.mtu);
        let reply = OpenConnectionReply2::new(server_guid, from, mtu, false);
        assert(reply.fields() =~= reply2_fields(server_guid, from, mtu));
        let session = Some(
            Connection {
                guid: connection.guid,
                addr: connection.addr,
                mtu,
                state: connection.state,
            },
        );
        match reply.compose() {
            Ok(bytes) => Outcome { reply: Some(bytes), session },
            Err(_) => Outcome { reply: None, session },
        }
    }

    /// Processes an incoming unconnected packet: `buffer` is the datagram
    /// with its tag, `from` the peer it came from, `known` the connection
    /// that the table holds for that peer, `server_guid` the identifier of
    /// the server, `descriptor` the text that describes the server, and
    /// `fresh_guid` the identifier for a connection that the datagram opens.
    pub fn handle_unconnected(
        buffer: &[u8],
        from: PeerAddress,
        known: Option<Connection>,
        server_guid: u64,
        descriptor: &String,
        fresh_guid: u64,
    ) -> (r: Outcome)
        ensures
            r@ == spec_handle_unconnected(
                buffer@,
                from,
                known,
                server_guid,
                descriptor@,
                fresh_guid,
            ),
    {
        if buffer.len() == 0 {
            return drop_datagram();
        }
        let body = vstd::slice::slice_subrange(buffer, 1, buffer.len());
        assert(body@ =~= buffer@.skip(1));
        match PacketID::from(buffer[0]) {
            PacketID::UnconnectedPing | PacketID::UnconnectedPing2 => Connection::handle_ping(
                body,
                server_guid,
                descriptor,
            ),
            PacketID::OpenConnectionRequest1 => Connection::handle_request1(
                body,
                from,
                server_guid,
                fresh_guid,
            ),
            PacketID::OpenConnectionRequest2 => Connection::handle_request2(
                body,
                from,
                known,
                server_guid,
            ),
            PacketID::NewIncomingConnection => match known {
                Some(connection) => {
                    if connection.state == State::Connected && connection.addr == from {
                        Outcome {
                            reply: None,
                            session: Some(
                                Connection {
                                    guid: connection.guid,
                                    addr: connection.addr,
                                    mtu: connection.mtu,
                                    state: State::FullyConnected,
                                },
                            ),
                        }
                    } else {
                        drop_datagram()
                    }
                },
                None => drop_datagram(),
            },
            PacketID::Disconnect => match known {
                Some(connection) => {
                    if connection.addr == from {
                        Outcome {
                            reply: None,
                            session: Some(
                                Connection {
                                    guid: connection.guid,
                                    addr: connection.addr,
                                    mtu: connection.mtu,
                                    state: State::Disconnected,
                                },
                            ),
                        }
                    } else {
                        drop_datagram()
                    }
                },
                None => drop_datagram(),
            },
            _ => drop_datagram(),
        }
    }
}

/// The table of connections after the connection handler has taken
/// `message`, and the datagram that it hands to the stream, if any.
///
/// A handler whose listener no longer runs takes nothing and hands on
/// nothing. A connection that is `Connected` or `FullyConnected` is entered
/// under its address, in place of the one that was there; one that is
/// `Disconnected` takes its peer out of the table; one that is `Unconnected`
/// is not entered. A datagram is handed to the stream where its peer has a
/// connection that is `FullyConnected`, and dropped otherwise.
pub open spec fn spec_update(
    table: Map<PeerAddress, Connection>,
    enabled: bool,
    message: MessageView,
) -> (Map<PeerAddress, Connection>, Option<(PeerAddress, Seq<u8>)>) {
    if !enabled {
        (table, None)
    } else {
        match message {
            MessageView::OpenSession(connection) => match connection.state {
                State::Connected | State::FullyConnected => (
                    table.insert(connection.addr, connection),
                    None,
                ),
                State::Disconnected => (table.remove(connection.addr), None),
                State::Unconnected => (table, None),
            },
            MessageView::Packet(addr, bytes) => if table.contains_key(addr) && table[addr].state
                == State::FullyConnected {
                (table, Some((addr, bytes)))
            } else {
                (table, None)
            },
        }
    }
}

/// The connection that a table holds for a peer, if it holds one.
pub open spec fn lookup(table: Map<PeerAddress, Connection>, addr: PeerAddress) -> Option<
    Connection,
> {
    if table.contains_key(addr) {
        Some(table[addr])
    } else {
        None
    }
}

/// Every connection of the table is entered under its own address and is
/// `Connected` or `FullyConnected`.
pub open spec fn table_wf(table: Map<PeerAddress, Connection>) -> bool {
    forall|addr: PeerAddress| #[trigger]
        table.contains_key(addr) ==> table[addr].addr == addr && (table[addr].state
            == State::Connected || table[addr].state == State::FullyConnected)
}

/// What one datagram does to the listener.
pub struct Step {
    /// The table of connections after the datagram.
    pub table: Map<PeerAddress, Connection>,
    /// The datagram to send back to the peer, if any.
    pub reply: Option<Seq<u8>>,
    /// The datagram to hand to the stream, if any.
    pub delivery: Option<(PeerAddress, Seq<u8>)>,
}

/// What the datagram `datagram` from the peer `from` does to a listener
/// with the table `table`: the socket takes the datagram, and the
/// connection handler takes what the socket hands to it.
///
/// A listener that no longer runs does nothing, and an empty datagram does
/// nothing. A datagram with a handshake tag goes through the handshake: its
/// answer goes back to the peer and its connection, if it has one, into the
/// table. Any other datagram goes to the stream if its peer is
/// `FullyConnected`, and is dropped otherwise.
pub open spec fn spec_on_datagram(
    table: Map<PeerAddress, Connection>,
    enabled: bool,
    server_guid: u64,
    descriptor: Seq<char>,
    from: PeerAddress,
    datagram: Seq<u8>,
    fresh_guid: u64,
) -> Step {
    if !enabled {
        Step { table, reply: None, delivery: None }
    } else {
        let received = spec_receive(
            datagram,
            from,
            lookup(table, from),
            server_guid,
            descriptor,
            fresh_guid,
        );
        match received.message {
            Some(message) => {
                let (after, delivery) = spec_update(table, true, message);
                Step { table: after, reply: received.reply, delivery }
            },
            None => Step { table, reply: received.reply, delivery: None },
        }
    }
}

/// What the listener does with one datagram: what it sends back to the
/// peer and what it hands to the stream.
#[derive(Debug, Clone)]
pub struct Dispatch {
    pub reply: Option<Vec<u8>>,
    pub delivery: Option<PacketInfo>,
}

/// Manages and updates connections.
pub struct ConnectionHandler {
    connection: HashMap<u64, Connection>,
}

impl ConnectionHandler {
    /// The table: the connection of each peer that has one.
    pub closed spec fn view(&self) -> Map<PeerAddress, Connection> {
        Map::new(
            |addr: PeerAddress| self.connection@.contains_key(addr.spec_key()),
            |addr: PeerAddress| self.connection@[addr.spec_key()],
        )
    }

    /// Every connection sits under the key of its own address and is
    /// `Connected` or `FullyConnected`. Every handler that this module
    /// hands out is well formed, and every method keeps it so.
    pub closed spec fn wf(&self) -> bool {
        forall|key: u64| #[trigger]
            self.connection@.contains_key(key) ==> self.connection@[key].addr.spec_key() == key
                && (self.connection@[key].state == State::Connected || self.connection@[key].state
                == State::FullyConnected)
    }

    /// A handler with an empty table.
    pub fn new() -> (r: ConnectionHandler)
        ensures
            r.wf(),
            r@ == Map::<PeerAddress, Connection>::empty(),
    {
        let r = ConnectionHandler { connection: HashMap::new() };
        assert(r@ =~= Map::<PeerAddress, Connection>::empty());
        r
    }

    /// The connection of a peer, if it has one.
    pub fn get_from_addr(&self, addr: &PeerAddress) -> (r: Option<Connection>)
        requires
            self.wf(),
        ensures
            r == lookup(self@, *addr),
    {
        broadcast use vstd::std_specs::hash::group_hash_axioms;

        let key = addr.key();
        match self.connection.get(&key) {
            Some(connection) => Some(*connection),
            None => None,
        }
    }

    /// In the table of a well-formed handler every connection is entered
    /// under its own address and is `Connected` or `FullyConnected`.
    pub proof fn lemma_table_wf(&self)
        requires
            self.wf(),
        ensures
            table_wf(self@),
    {
        assert forall|addr: PeerAddress| #[trigger] self@.contains_key(addr) implies self@[addr].addr
            == addr && (self@[addr].state == State::Connected || self@[addr].state
            == State::FullyConnected) by {
            PeerAddress::lemma_key_injective(self@[addr].addr, addr);
        }
    }

    /// Takes one message: changes the table as the message says, and gives
    /// the datagram to hand to the stream, if there is one. See
    /// [`spec_update`].
    pub fn update(&mut self, info: &MetaInfo, message: Message) -> (r: Option<PacketInfo>)
        requires
            old(self).wf(),
        ensures
            final(self).wf(),
            final(self)@ == spec_update(old(self)@, info.enabled, message@).0,
            match spec_update(old(self)@, info.enabled, message@).1 {
                Some((addr, bytes)) => r matches Some(packet) && packet.0 == addr && packet.1@
                    == bytes,
                None => r is None,
            },
    {
        broadcast use vstd::std_specs::hash::group_hash_axioms;

        if !info.enabled {
            return None;
        }
        match message {
            Message::OpenSession(connection) => {
                let key = connection.addr.key();
                match connection.state {
                    State::Connected | State::FullyConnected => {
                        self.connection.insert(key, connection);
                        proof {
                            let wanted = old(self)@.insert(connection.addr, connection);
                            assert forall|addr: PeerAddress| #[trigger]
                                self@.contains_key(addr) == wanted.contains_key(addr) by {
                                if addr.spec_key() == key {
                                    PeerAddress::lemma_key_injective(addr, connection.addr);
                                }
                            }
                            assert forall|addr: PeerAddress| #[trigger]
                                self@.contains_key(addr) implies self@[addr] == wanted[addr] by {
                                if addr.spec_key() == key {
                                    PeerAddress::lemma_key_injective(addr, connection.addr);
                                }
                            }
                            assert(self@ =~= wanted);
                        }
                    },
                    State::Disconnected => {
                        self.connection.remove(&key);
                        proof {
                            let wanted = old(self)@.remove(connection.addr);
                            assert forall|addr: PeerAddress| #[trigger]
                                self@.contains_key(addr) == wanted.contains_key(addr) by {
                                if addr.spec_key() == key {
                                    PeerAddress::lemma_key_injective(addr, connection.addr);
                                }
                            }
                            assert(self@ =~= wanted);
                        }
                    },
                    State::Unconnected => {},
                }
                None
            },
            Message::Packet(addr, bytes) => {
                let key = addr.key();
                match self.connection.get(&key) {
                    Some(connection) => {
                        if connection.state == State::FullyConnected {
                            Some((addr, bytes))
                        } else {
                            None
                        }
                    },
                    None => None,
                }
            },
        }
    }

    /// Evicts a peer: takes its connection out of the table, if it has one,
    /// and gives it back. The peer's next datagram meets a table that does
    /// not know it.
    pub fn evict(&mut self, addr: &PeerAddress) -> (r: Option<Connection>)
        requires
            old(self).wf(),
        ensures
            final(self).wf(),
            final(self)@ == old(self)@.remove(*addr),
            r == lookup(old(self)@, *addr),
    {
        broadcast use vstd::std_specs::hash::group_hash_axioms;

        let key = addr.key();
        let r = self.connection.remove(&key);
        proof {
            let wanted = old(self)@.remove(*addr);
            assert forall|other: PeerAddress| #[trigger]
                self@.contains_key(other) == wanted.contains_key(other) by {
                if other.spec_key() == key {
                    PeerAddress::lemma_key_injective(other, *addr);
                }
            }
            assert(self@ =~= wanted);
        }
        r
    }

    /// Takes one datagram that the socket has received from `from`:
    /// routes it, lets the handshake answer it, and enters in the table
    /// what the handshake decides. See [`spec_on_datagram`].
    pub fn on_datagram(
        &mut self,
        info: &MetaInfo,
        descriptor: &String,
        from: PeerAddress,
        datagram: &[u8],
        fresh_guid: u64,
    ) -> (r: Dispatch)
        requires
            old(self).wf(),
        ensures
            final(self).wf(),
            ({
                let step = spec_on_datagram(
                    old(self)@,
                    info.enabled,
                    info.guid,
                    descriptor@,
                    from,
                    datagram@,
                    fresh_guid,
                );
                &&& final(self)@ == step.table
                &&& match step.reply {
                    Some(bytes) => r.reply matches Some(reply) && reply@ == bytes,
                    None => r.reply is None,
                }
                &&& match step.delivery {
                    Some((addr, bytes)) => r.delivery matches Some(packet) && packet.0 == addr
                        && packet.1@ == bytes,
                    None => r.delivery is None,
                }
            }),
    {
        if !info.enabled {
            return Dispatch { reply: None, delivery: None };
        }
        let known = self.get_from_addr(&from);
        let received = receive(datagram, from, known, info.guid, descriptor, fresh_guid);
        let delivery = match received.message {
            Some(message) => self.update(info, message),
            None => None,
        };
        Dispatch { reply: received.reply, delivery }
    }
}

} // verus!
