//! What holds of the handshake and of the table of connections, whatever
//! the datagrams are.

use crate::connection::{
    incompatible_fields, lookup, spec_handle_unconnected, spec_on_datagram, spec_update, table_wf,
    Connection, State,
};
use crate::internal::address::PeerAddress;
use crate::internal::{MessageView, PROTOCOL_VERSION};
use crate::protocol::codec::{
    decode_fields, lemma_no_error, spec_encode, FieldKind, FieldView,
};
use crate::protocol::unconnected::{OpenConnectionRequest1, OpenConnectionRequest2, UnconnectedPing};
use crate::protocol::{magic_bytes, ClientPacket, PacketID};
use crate::server::socket::{is_handshake_tag, spec_route, Route};
use vstd::prelude::*;

verus! {

/// The kinds of the fields of the packet that the handshake reads under the
/// tag `tag`; nothing for a tag under which it reads no fields.
pub open spec fn schema_of(tag: u8) -> Option<Seq<FieldKind>> {
    match PacketID::spec_from(tag) {
        PacketID::UnconnectedPing | PacketID::UnconnectedPing2 => Some(
            <UnconnectedPing as ClientPacket>::schema(),
        ),
        PacketID::OpenConnectionRequest1 => Some(
            <OpenConnectionRequest1 as ClientPacket>::schema(),
        ),
        PacketID::OpenConnectionRequest2 => Some(
            <OpenConnectionRequest2 as ClientPacket>::schema(),
        ),
        _ => None,
    }
}

/// A datagram that cannot be read changes nothing: where the fields of a
/// handshake packet cannot be read from the datagram, be it that the
/// datagram ends too early or that the length prefix of a text counts more
/// bytes than are left, the handshake gives no answer and no connection,
/// and the table stays as it was.
pub proof fn lemma_unreadable_datagram_changes_nothing(
    table: Map<PeerAddress, Connection>,
    enabled: bool,
    server_guid: u64,
    descriptor: Seq<char>,
    from: PeerAddress,
    datagram: Seq<u8>,
    fresh_guid: u64,
)
    requires
        datagram.len() > 0,
        schema_of(datagram[0]) matches Some(schema) && decode_fields(schema, datagram.skip(1))
            is Err,
    ensures
        ({
            let step = spec_on_datagram(
                table,
                enabled,
                server_guid,
                descriptor,
                from,
                datagram,
                fresh_guid,
            );
            &&& step.table == table
            &&& step.reply is None
            &&& step.delivery is None
        }),
{
}

/// A first request that names another version of the protocol is answered
/// with the version that the server speaks, and the table stays as it was:
/// a peer that had no connection has none afterwards.
pub proof fn lemma_other_version_is_refused(
    table: Map<PeerAddress, Connection>,
    server_guid: u64,
    descriptor: Seq<char>,
    from: PeerAddress,
    datagram: Seq<u8>,
    fresh_guid: u64,
)
    requires
        datagram.len() > 0,
        datagram[0] == PacketID::OpenConnectionRequest1.spec_value(),
        decode_fields(<OpenConnectionRequest1 as ClientPacket>::schema(), datagram.skip(1))
            matches Ok(fields) && fields[0] == FieldView::Magic(magic_bytes()) && fields[1]
            != FieldView::U8(PROTOCOL_VERSION),
    ensures
        ({
            let step = spec_on_datagram(
                table,
                true,
                server_guid,
                descriptor,
                from,
                datagram,
                fresh_guid,
            );
            let refusal = spec_encode(
                PacketID::IncompatibleProtocol.spec_value(),
                incompatible_fields(server_guid),
            );
            &&& refusal is Ok
            &&& step.reply == Some(refusal->Ok_0)
            &&& step.delivery is None
            &&& step.table == table
            &&& !table.contains_key(from) ==> !step.table.contains_key(from)
        }),
{
    lemma_no_error(incompatible_fields(server_guid));
}

/// A listener that no longer runs is inert: it takes no message and no
/// datagram, hands nothing to the stream, answers nothing and keeps its
/// table.
pub proof fn lemma_stopped_listener_is_inert(
    table: Map<PeerAddress, Connection>,
    message: MessageView,
    server_guid: u64,
    descriptor: Seq<char>,
    from: PeerAddress,
    datagram: Seq<u8>,
    fresh_guid: u64,
)
    ensures
        spec_update(table, false, message) == (table, None::<(PeerAddress, Seq<u8>)>),
        ({
            let step = spec_on_datagram(
                table,
                false,
                server_guid,
                descriptor,
                from,
                datagram,
                fresh_guid,
            );
            &&& step.table == table
            &&& step.reply is None
            &&& step.delivery is None
        }),
{
}

/// The datagrams that the connection handler hands to the stream while it
/// takes the messages `messages` one after the other, starting from the
/// table `table`.
pub open spec fn deliveries(
    table: Map<PeerAddress, Connection>,
    enabled: bool,
    messages: Seq<MessageView>,
) -> Seq<(PeerAddress, Seq<u8>)>
    decreases messages.len(),
{
    if messages.len() == 0 {
        Seq::empty()
    } else {
        let (after, delivery) = spec_update(table, enabled, messages[0]);
        let later = deliveries(after, enabled, messages.skip(1));
        match delivery {
            Some(packet) => seq![packet] + later,
            None => later,
        }
    }
}

/// Once the listener no longer runs, nothing more is handed to the stream,
/// whatever messages come and however many.
pub proof fn lemma_nothing_is_delivered_after_shutdown(
    table: Map<PeerAddress, Connection>,
    messages: Seq<MessageView>,
)
    ensures
        deliveries(table, false, messages) == Seq::<(PeerAddress, Seq<u8>)>::empty(),
    decreases messages.len(),
{
    if messages.len() > 0 {
        lemma_nothing_is_delivered_after_shutdown(table, messages.skip(1));
    }
}

/// What the handshake decides for a peer concerns that peer: the
/// connection that it gives, if any, is a connection of the peer that the
/// datagram came from, provided the table is well formed.
pub proof fn lemma_session_is_of_the_sender(
    buffer: Seq<u8>,
    from: PeerAddress,
    known: Option<Connection>,
    server_guid: u64,
    descriptor: Seq<char>,
    fresh_guid: u64,
)
    ensures
        spec_handle_unconnected(buffer, from, known, server_guid, descriptor, fresh_guid).session
            matches Some(connection) ==> connection.addr == from && connection.state
            != State::Unconnected,
{
}

/// The table stays well formed: whatever message the handler takes, every
/// connection is still entered under its own address, once, and is
/// `Connected` or `FullyConnected`.
pub proof fn lemma_update_keeps_the_table(
    table: Map<PeerAddress, Connection>,
    enabled: bool,
    message: MessageView,
)
    requires
        table_wf(table),
    ensures
        table_wf(spec_update(table, enabled, message).0),
{
}

/// One datagram concerns one peer: the table stays well formed, and the
/// connection of every other peer stays as it was.
pub proof fn lemma_datagram_concerns_its_sender(
    table: Map<PeerAddress, Connection>,
    enabled: bool,
    server_guid: u64,
    descriptor: Seq<char>,
    from: PeerAddress,
    datagram: Seq<u8>,
    fresh_guid: u64,
    other: PeerAddress,
)
    requires
        table_wf(table),
        other != from,
    ensures
        ({
            let step = spec_on_datagram(
                table,
                enabled,
                server_guid,
                descriptor,
                from,
                datagram,
                fresh_guid,
            );
            &&& table_wf(step.table)
            &&& lookup(step.table, other) == lookup(table, other)
        }),
{
    lemma_session_is_of_the_sender(
        datagram,
        from,
        lookup(table, from),
        server_guid,
        descriptor,
        fresh_guid,
    );
}

/// A connection begins with the first request of the handshake and with
/// nothing else: a peer that has no connection gets one only from a
/// datagram with the tag of that request, and the connection it gets is
/// `Connected`.
pub proof fn lemma_connection_begins_with_first_request(
    table: Map<PeerAddress, Connection>,
    enabled: bool,
    server_guid: u64,
    descriptor: Seq<char>,
    from: PeerAddress,
    datagram: Seq<u8>,
    fresh_guid: u64,
)
    requires
        table_wf(table),
        !table.contains_key(from),
    ensures
        ({
            let step = spec_on_datagram(
                table,
                enabled,
                server_guid,
                descriptor,
                from,
                datagram,
                fresh_guid,
            );
            step.table.contains_key(from) ==> {
                &&& enabled
                &&& datagram.len() > 0
                &&& datagram[0] == PacketID::OpenConnectionRequest1.spec_value()
                &&& step.table[from].state == State::Connected
                &&& step.table[from].guid == fresh_guid
            }
        }),
{
}

/// A disconnect ends the connection: after a datagram with the tag of the
/// disconnect, the peer it came from has no connection, so that its next
/// datagram meets a table that does not know it.
pub proof fn lemma_disconnect_forgets_the_peer(
    table: Map<PeerAddress, Connection>,
    server_guid: u64,
    descriptor: Seq<char>,
    from: PeerAddress,
    datagram: Seq<u8>,
    fresh_guid: u64,
)
    requires
        table_wf(table),
        datagram.len() > 0,
        datagram[0] == PacketID::Disconnect.spec_value(),
    ensures
        ({
            let step = spec_on_datagram(
                table,
                true,
                server_guid,
                descriptor,
                from,
                datagram,
                fresh_guid,
            );
            &&& lookup(step.table, from) is None
            &&& step.reply is None
            &&& step.delivery is None
        }),
{
}

/// A datagram reaches the stream only from a peer whose handshake is
/// complete: what is handed to the stream is the datagram itself, it does
/// not carry a handshake tag, and its peer is `FullyConnected`.
pub proof fn lemma_delivery_needs_full_connection(
    table: Map<PeerAddress, Connection>,
    enabled: bool,
    server_guid: u64,
    descriptor: Seq<char>,
    from: PeerAddress,
    datagram: Seq<u8>,
    fresh_guid: u64,
)
    ensures
        ({
            let step = spec_on_datagram(
                table,
                enabled,
                server_guid,
                descriptor,
                from,
                datagram,
                fresh_guid,
            );
            step.delivery matches Some(packet) ==> {
                &&& enabled
                &&& packet == (from, datagram)
                &&& spec_route(datagram) == Route::Session
                &&& !is_handshake_tag(datagram[0])
                &&& lookup(table, from) matches Some(connection) && connection.state
                    == State::FullyConnected
                &&& step.table == table
            }
        }),
{
}

/// The states follow one another in one order: a datagram takes the
/// connection of its sender from none to `Connected`, from `Connected` to
/// `Connected` or `FullyConnected`, from `FullyConnected` to
/// `FullyConnected` or, by a new first request, back to `Connected`, and
/// from any of them to none.
pub proof fn lemma_states_follow_in_order(
    table: Map<PeerAddress, Connection>,
    enabled: bool,
    server_guid: u64,
    descriptor: Seq<char>,
    from: PeerAddress,
    datagram: Seq<u8>,
    fresh_guid: u64,
)
    requires
        table_wf(table),
    ensures
        ({
            let step = spec_on_datagram(
                table,
                enabled,
                server_guid,
                descriptor,
                from,
                datagram,
                fresh_guid,
            );
            match (lookup(table, from), lookup(step.table, from)) {
                (None, Some(after)) => after.state == State::Connected,
                (Some(before), Some(after)) => {
                    ||| after == before
                    ||| after.state == State::Connected && datagram[0]
                        == PacketID::OpenConnectionRequest1.spec_value()
                    ||| before.state == State::Connected && after.state == State::Connected
                        && datagram[0] == PacketID::OpenConnectionRequest2.spec_value() && after
                        == (Connection { mtu: after.mtu, ..before })
                    ||| before.state == State::Connected && after == (Connection {
                        state: State::FullyConnected,
                        ..before
                    }) && datagram[0] == PacketID::NewIncomingConnection.spec_value()
                },
                (_, None) => true,
            }
        }),
{
}

} // verus!
