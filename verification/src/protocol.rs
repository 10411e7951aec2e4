//! The packets of the protocol and their form on the wire.

use crate::protocol::codec::{
    decode_fields, spec_encode, DecodeError, EncodeError, FieldKind, FieldView,
};
use vstd::prelude::*;

/// The fields of a packet and how each is written and read.
pub mod codec;

/// Unconnected packets (handshake).
pub mod unconnected;

/// Numbers on the wire.
pub mod wire;

verus! {

/// The marker that every handshake packet carries.
pub const MAGIC: [u8; 16] = [
    0x00, 0xff, 0xff, 0x00, 0xfe, 0xfe, 0xfe, 0xfe, 0xfd, 0xfd, 0xfd, 0xfd, 0x12, 0x34, 0x56, 0x78,
];

/// The sixteen bytes of the marker.
pub open spec fn magic_bytes() -> Seq<u8> {
    seq![
        0x00u8, 0xff, 0xff, 0x00, 0xfe, 0xfe, 0xfe, 0xfe, 0xfd, 0xfd, 0xfd, 0xfd, 0x12, 0x34, 0x56,
        0x78,
    ]
}

/// A copy of the marker.
pub fn magic() -> (r: [u8; 16])
    ensures
        r@ == magic_bytes(),
{
    let r = MAGIC;
    assert(r@ =~= magic_bytes());
    r
}

/// The tag that opens a packet and says of which type it is.
#[allow(non_camel_case_types)]
#[derive(Debug, Copy, Clone, PartialEq, Eq, Structural)]
pub enum PacketID {
    ConnectedPing,
    UnconnectedPing,
    UnconnectedPing2,
    ConnectedPong,
    OpenConnectionRequest1,
    OpenConnectionReply1,
    OpenConnectionRequest2,
    OpenConnectionReply2,
    ConnectionRequest,
    ConnectionRequestAccepted,
    NewIncomingConnection,
    Disconnect,
    IncompatibleProtocol,
    UnconnectedPong,
    GamePacket,
    NACK,
    ACK,
    Unknown,
}

impl PacketID {
    /// The byte that stands for this tag.
    pub open spec fn spec_value(self) -> u8 {
        match self {
            PacketID::ConnectedPing => 0x00,
            PacketID::UnconnectedPing => 0x01,
            PacketID::UnconnectedPing2 => 0x02,
            PacketID::ConnectedPong => 0x03,
            PacketID::OpenConnectionRequest1 => 0x05,
            PacketID::OpenConnectionReply1 => 0x06,
            PacketID::OpenConnectionRequest2 => 0x07,
            PacketID::OpenConnectionReply2 => 0x08,
            PacketID::ConnectionRequest => 0x09,
            PacketID::ConnectionRequestAccepted => 0x10,
            PacketID::NewIncomingConnection => 0x13,
            PacketID::Disconnect => 0x15,
            PacketID::IncompatibleProtocol => 0x19,
            PacketID::UnconnectedPong => 0x1c,
            PacketID::GamePacket => 0xfe,
            PacketID::NACK => 0xa0,
            PacketID::ACK => 0xc0,
            PacketID::Unknown => 0xff,
        }
    }

    /// The tag that `value` stands for; `Unknown` where it stands for none.
    pub open spec fn spec_from(value: u8) -> PacketID {
        if value == 0x00 {
            PacketID::ConnectedPing
        } else if value == 0x01 {
            PacketID::UnconnectedPing
        } else if value == 0x02 {
            PacketID::UnconnectedPing2
        } else if value == 0x03 {
            PacketID::ConnectedPong
        } else if value == 0x05 {
            PacketID::OpenConnectionRequest1
        } else if value == 0x06 {
            PacketID::OpenConnectionReply1
        } else if value == 0x07 {
            PacketID::OpenConnectionRequest2
        } else if value == 0x08 {
            PacketID::OpenConnectionReply2
        } else if value == 0x09 {
            PacketID::ConnectionRequest
        } else if value == 0x10 {
            PacketID::ConnectionRequestAccepted
        } else if value == 0x13 {
            PacketID::NewIncomingConnection
        } else if value == 0x15 {
            PacketID::Disconnect
        } else if value == 0x19 {
            PacketID::IncompatibleProtocol
        } else if value == 0x1c {
            PacketID::UnconnectedPong
        } else if value == 0xfe {
            PacketID::GamePacket
        } else if value == 0xa0 {
            PacketID::NACK
        } else if value == 0xc0 {
            PacketID::ACK
        } else {
            PacketID::Unknown
        }
    }

    /// The byte that stands for this tag.
    pub fn value(self) -> (r: u8)
        ensures
            r == self.spec_value(),
    {
        match self {
            PacketID::ConnectedPing => 0x00,
            PacketID::UnconnectedPing => 0x01,
            PacketID::UnconnectedPing2 => 0x02,
            PacketID::ConnectedPong => 0x03,
            PacketID::OpenConnectionRequest1 => 0x05,
            PacketID::OpenConnectionReply1 => 0x06,
            PacketID::OpenConnectionRequest2 => 0x07,
            PacketID::OpenConnectionReply2 => 0x08,
            PacketID::ConnectionRequest => 0x09,
            PacketID::ConnectionRequestAccepted => 0x10,
            PacketID::NewIncomingConnection => 0x13,
            PacketID::Disconnect => 0x15,
            PacketID::IncompatibleProtocol => 0x19,
            PacketID::UnconnectedPong => 0x1c,
            PacketID::GamePacket => 0xfe,
            PacketID::NACK => 0xa0,
            PacketID::ACK => 0xc0,
            PacketID::Unknown => 0xff,
        }
    }

    /// Every tag is the tag that its byte stands for.
    pub proof fn lemma_from_value(id: PacketID)
        ensures
            PacketID::spec_from(id.spec_value()) == id,
    {
    }

    /// A byte stands for the tag whose byte it is, or for no tag.
    pub proof fn lemma_value_from(value: u8)
        ensures
            PacketID::spec_from(value).spec_value() == value || PacketID::spec_from(value)
                == PacketID::Unknown,
    {
    }
}

impl From<u8> for PacketID {
    /// The tag that `value` stands for; `Unknown` where it stands for none.
    fn from(value: u8) -> (r: PacketID)
        ensures
            r == PacketID::spec_from(value),
    {
        match value {
            0x00 => PacketID::ConnectedPing,
            0x01 => PacketID::UnconnectedPing,
            0x02 => PacketID::UnconnectedPing2,
            0x03 => PacketID::ConnectedPong,
            0x05 => PacketID::OpenConnectionRequest1,
            0x06 => PacketID::OpenConnectionReply1,
            0x07 => PacketID::OpenConnectionRequest2,
            0x08 => PacketID::OpenConnectionReply2,
            0x09 => PacketID::ConnectionRequest,
            0x10 => PacketID::ConnectionRequestAccepted,
            0x13 => PacketID::NewIncomingConnection,
            0x15 => PacketID::Disconnect,
            0x19 => PacketID::IncompatibleProtocol,
            0x1c => PacketID::UnconnectedPong,
            0xfe => PacketID::GamePacket,
            0xa0 => PacketID::NACK,
            0xc0 => PacketID::ACK,
            _ => PacketID::Unknown,
        }
    }
}

impl vstd::std_specs::convert::FromSpecImpl<u8> for PacketID {
    open spec fn obeys_from_spec() -> bool {
        true
    }

    open spec fn from_spec(value: u8) -> PacketID {
        PacketID::spec_from(value)
    }
}

/// A packet that a client sends: the server reads it.
pub trait ClientPacket: Sized {
    /// The tag of this type of packet.
    spec fn tag() -> PacketID;

    /// The kinds of the fields of this type of packet, in their order.
    spec fn schema() -> Seq<FieldKind>;

    /// The fields of the packet, in their order.
    spec fn fields(&self) -> Seq<FieldView>;

    /// The byte that opens a packet of this type.
    fn id() -> (r: u8)
        ensures
            r == Self::tag().spec_value(),
    ;

    /// Reads a packet of this type from a datagram whose tag byte has been
    /// taken off: its fields are those that the bytes hold. Fails where
    /// reading the fields fails, with the same error.
    fn parse(bytes: &[u8]) -> (r: Result<Self, DecodeError>)
        ensures
            match decode_fields(Self::schema(), bytes@) {
                Ok(fields) => r matches Ok(packet) && packet.fields() == fields,
                Err(e) => r matches Err(err) && err == e,
            },
    ;
}

/// A packet that the server sends: the server writes it.
pub trait ServerPacket: Sized {
    /// The tag of this type of packet.
    spec fn tag() -> PacketID;

    /// The fields of the packet, in their order.
    spec fn fields(&self) -> Seq<FieldView>;

    /// The byte that opens a packet of this type.
    fn id() -> (r: u8)
        ensures
            r == Self::tag().spec_value(),
    ;

    /// The packet as it lies on the wire: the tag byte, then the fields.
    /// Fails where a field has no wire form.
    fn compose(&self) -> (r: Result<Vec<u8>, EncodeError>)
        ensures
            match r {
                Ok(bytes) => spec_encode(Self::tag().spec_value(), self.fields()) == Ok::<
                    Seq<u8>,
                    EncodeError,
                >(bytes@),
                Err(e) => spec_encode(Self::tag().spec_value(), self.fields()) == Err::<
                    Seq<u8>,
                    EncodeError,
                >(e),
            },
    ;
}

} // verus!
