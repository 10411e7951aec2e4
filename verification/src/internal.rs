//! Utilities shared by the protocol and the server.

use crate::connection::Connection;
use crate::server::Motd;
use rand::Rng;
use vstd::prelude::*;

/// The address of a peer.
pub mod address;

/// A 24-bit unsigned integer.
pub mod u24_impl;

/// Arithmetic on the 24-bit unsigned integer.
pub mod u24_ops;

pub use self::address::PeerAddress;
pub use self::u24_impl::u24;

verus! {

/// The version of the protocol that this server speaks.
pub const PROTOCOL_VERSION: u8 = 11;

/// A datagram and the peer it comes from or goes to.
pub type PacketInfo = (PeerAddress, Vec<u8>);

/// `Rng::gen::<u64>` of `rand` on the thread's generator: a number drawn at
/// random. Nothing is known of it.
#[verifier::external_body]
pub fn generate_guid() -> u64 {
    let mut rng = rand::thread_rng();
    rng.gen::<u64>()
}

/// What the listener tells its actors: whether it runs, how the server
/// describes itself, and the identifier of the server.
pub struct MetaInfo {
    pub enabled: bool,
    pub motd: Motd,
    pub guid: u64,
}

impl MetaInfo {
    /// The state before any listener is bound: not running, a blank
    /// descriptor, and the identifier 0.
    pub fn new() -> (r: MetaInfo)
        ensures
            !r.enabled,
            r.motd.is_blank(),
            r.guid == 0,
    {
        MetaInfo { enabled: false, motd: Motd::default(), guid: 0 }
    }

    /// Binding a listener: it runs from now on, under the identifier `guid`
    /// and with a blank descriptor.
    pub fn bind(&mut self, guid: u64)
        ensures
            final(self).enabled,
            final(self).motd.is_blank(),
            final(self).guid == guid,
    {
        self.guid = guid;
        self.motd = Motd::default();
        self.enabled = true;
    }

    /// Replaces the descriptor and nothing else.
    pub fn set_motd(&mut self, motd: Motd)
        ensures
            final(self).motd == motd,
            final(self).enabled == old(self).enabled,
            final(self).guid == old(self).guid,
    {
        self.motd = motd;
    }

    /// Tearing the listener down: it no longer runs; nothing else changes.
    pub fn shutdown(&mut self)
        ensures
            !final(self).enabled,
            final(self).motd == old(self).motd,
            final(self).guid == old(self).guid,
    {
        self.enabled = false;
    }
}

/// This enumeration is necessary for internal communication of the
/// connection handler, the socket and the stream.
#[derive(Debug, Clone)]
pub enum Message {
    /// A datagram of a peer that is past the handshake, for the connection
    /// handler to route.
    Packet(PeerAddress, Vec<u8>),
    /// A connection that the handshake has created or changed, for the
    /// connection handler to enter in its table.
    OpenSession(Connection),
}

/// What a [`Message`] holds, as mathematics.
pub enum MessageView {
    Packet(PeerAddress, Seq<u8>),
    OpenSession(Connection),
}

impl View for Message {
    type V = MessageView;

    open spec fn view(&self) -> MessageView {
        match self {
            Message::Packet(addr, bytes) => MessageView::Packet(*addr, bytes@),
            Message::OpenSession(connection) => MessageView::OpenSession(*connection),
        }
    }
}

} // verus!
