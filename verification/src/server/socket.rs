//! The decisions of the socket on each datagram that it receives.

use crate::connection::{spec_handle_unconnected, Connection};
use crate::internal::address::PeerAddress;
use crate::internal::{Message, MessageView};
use crate::protocol::PacketID;
use vstd::prelude::*;

verus! {

/// Where the socket sends a datagram that it has received.
#[derive(Debug, Clone, Copy, PartialEq, Eq, Structural)]
pub enum Route {
    /// Nowhere: the datagram is empty.
    Ignore,
    /// To the handshake.
    Unconnected,
    /// To the connection handler, under the address it came from.
    Session,
}

/// Whether the handshake takes datagrams with this tag: one of `0x01`,
/// `0x02`, `0x05`, `0x07`, `0x09`, `0x13` and `0x15`.
pub open spec fn is_handshake_tag(tag: u8) -> bool {
    tag == 0x01 || tag == 0x02 || tag == 0x05 || tag == 0x07 || tag == 0x09 || tag == 0x13 || tag
        == 0x15
}

/// Where a datagram goes: nowhere if it is empty, to the handshake if its
/// first byte is a handshake tag, and to the connection handler otherwise.
pub open spec fn spec_route(datagram: Seq<u8>) -> Route {
    if datagram.len() == 0 {
        Route::Ignore
    } else if is_handshake_tag(datagram[0]) {
        Route::Unconnected
    } else {
        Route::Session
    }
}

/// Where the socket sends a datagram that it has received.
pub fn route(datagram: &[u8]) -> (r: Route)
    ensures
        r == spec_route(datagram@),
{
    if datagram.len() == 0 {
        return Route::Ignore;
    }
    match datagram[0] {
        0x01 | 0x02 | 0x05 | 0x07 | 0x09 | 0x13 | 0x15 => Route::Unconnected,
        _ => Route::Session,
    }
}

/// The handshake tags are the tags of the two probes, of the two requests
/// to open a connection, of the request to connect, of the confirmation of
/// a new connection and of the disconnect.
pub proof fn lemma_handshake_tags(tag: u8)
    ensures
        is_handshake_tag(tag) <==> {
            let id = PacketID::spec_from(tag);
            ||| id == PacketID::UnconnectedPing
            ||| id == PacketID::UnconnectedPing2
            ||| id == PacketID::OpenConnectionRequest1
            ||| id == PacketID::OpenConnectionRequest2
            ||| id == PacketID::ConnectionRequest
            ||| id == PacketID::NewIncomingConnection
            ||| id == PacketID::Disconnect
        },
{
}

/// What the socket does with one datagram: what it sends back to the peer
/// and what it hands to the connection handler.
#[derive(Debug, Clone)]
pub struct Received {
    pub reply: Option<Vec<u8>>,
    pub message: Option<Message>,
}

/// What a [`Received`] holds, as mathematics.
pub struct ReceivedView {
    pub reply: Option<Seq<u8>>,
    pub message: Option<MessageView>,
}

impl View for Received {
    type V = ReceivedView;

    open spec fn view(&self) -> ReceivedView {
        ReceivedView {
            reply: match self.reply {
                Some(bytes) => Some(bytes@),
                None => None,
            },
            message: match self.message {
                Some(message) => Some(message@),
                None => None,
            },
        }
    }
}

/// What the socket does with the datagram `datagram` that came from `from`,
/// where `known` is the connection that the table holds for that peer.
///
/// An empty datagram is ignored. A datagram with a handshake tag goes
/// through the handshake: its answer goes back to the peer, and the
/// connection that it opens or changes goes to the connection handler. Any
/// other datagram goes to the connection handler as it is, under the
/// address it came from.
pub open spec fn spec_receive(
    datagram: Seq<u8>,
    from: PeerAddress,
    known: Option<Connection>,
    server_guid: u64,
    descriptor: Seq<char>,
    fresh_guid: u64,
) -> ReceivedView {
    match spec_route(datagram) {
        Route::Ignore => ReceivedView { reply: None, message: None },
        Route::Unconnected => {
            let outcome = spec_handle_unconnected(
                datagram,
                from,
                known,
                server_guid,
                descriptor,
                fresh_guid,
            );
            ReceivedView {
                reply: outcome.reply,
                message: match outcome.session {
                    Some(connection) => Some(MessageView::OpenSession(connection)),
                    None => None,
                },
            }
        },
        Route::Session => ReceivedView {
            reply: None,
            message: Some(MessageView::Packet(from, datagram)),
        },
    }
}

/// One turn of the socket's loop, for the datagram that it has received.
/// See [`spec_receive`].
pub fn receive(
    datagram: &[u8],
    from: PeerAddress,
    known: Option<Connection>,
    server_guid: u64,
    descriptor: &String,
    fresh_guid: u64,
) -> (r: Received)
    ensures
        r@ == spec_receive(datagram@, from, known, server_guid, descriptor@, fresh_guid),
{
    match route(datagram) {
        Route::Ignore => Received { reply: None, message: None },
        Route::Unconnected => {
            let outcome = Connection::handle_unconnected(
                datagram,
                from,
                known,
                server_guid,
                descriptor,
                fresh_guid,
            );
            let message = match outcome.session {
                Some(connection) => Some(Message::OpenSession(connection)),
                None => None,
            };
            Received { reply: outcome.reply, message }
        },
        Route::Session => {
            let bytes = vstd::slice::slice_to_vec(datagram);
            Received { reply: None, message: Some(Message::Packet(from, bytes)) }
        },
    }
}

} // verus!
