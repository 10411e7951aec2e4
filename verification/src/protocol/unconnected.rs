//! Unconnected packets (handshake).

use crate::internal::address::PeerAddress;
use crate::protocol::codec::{
    decode, encode, kinds_of, lemma_decoded_kinds, lemma_no_error, DecodeError, EncodeError,
    Field, FieldKind, FieldView, MTU,
};
use crate::protocol::{magic, magic_bytes, ClientPacket, PacketID, ServerPacket};
use vstd::prelude::*;

verus! {

/// A probe that a client sends before any handshake.
#[derive(Debug, Clone)]
pub struct UnconnectedPing {
    /// The sender's clock.
    pub time: i64,
    /// The marker.
    pub magic: [u8; 16],
    /// The identifier of the client.
    pub client_guid: i64,
}

impl ClientPacket for UnconnectedPing {
    open spec fn tag() -> PacketID {
        PacketID::UnconnectedPing
    }

    open spec fn schema() -> Seq<FieldKind> {
        seq![FieldKind::I64, FieldKind::Magic, FieldKind::I64]
    }

    open spec fn fields(&self) -> Seq<FieldView> {
        seq![
            FieldView::I64(self.time),
            FieldView::Magic(self.magic@),
            FieldView::I64(self.client_guid),
        ]
    }

    fn id() -> (r: u8) {
        PacketID::UnconnectedPing.value()
    }

    fn parse(bytes: &[u8]) -> (r: Result<UnconnectedPing, DecodeError>) {
        let kinds = [FieldKind::I64, FieldKind::Magic, FieldKind::I64];
        assert(kinds@ =~= Self::schema());
        proof {
            lemma_decoded_kinds(Self::schema(), bytes@);
        }
        let mut fields = match decode(kinds.as_slice(), bytes) {
            Ok(fields) => fields,
            Err(e) => {
                return Err(e);
            },
        };
        let ghost all = fields.deep_view();
        assert(all.len() == 3) by {
            assert(kinds_of(all).len() == all.len());
        }
        assert forall|i: int| 0 <= i < 3 implies (#[trigger] all[i]).kind() == Self::schema()[i] by {
            assert(kinds_of(all)[i] == all[i].kind());
        }
        assert(fields@.last()@ == all[2]);
        let client_guid = Field::pop_i64(&mut fields);
        assert(fields@.last()@ == all[1]);
        let magic = Field::pop_magic(&mut fields);
        assert(fields@.last()@ == all[0]);
        let time = Field::pop_i64(&mut fields);
        let packet = UnconnectedPing { time, magic, client_guid };
        assert(packet.fields() =~= all);
        Ok(packet)
    }
}

/// The answer to a probe; it carries the server's descriptor.
#[derive(Debug, Clone)]
pub struct UnconnectedPong {
    /// The clock value of the probe that is answered.
    pub time: i64,
    /// The identifier of the server.
    pub server_guid: i64,
    /// The marker.
    pub magic: [u8; 16],
    /// The server's descriptor.
    pub motd: String,
}

impl UnconnectedPong {
    /// A packet with the given fields and the protocol's marker.
    pub fn new(time: i64, server_guid: i64, motd: String) -> (r: UnconnectedPong)
        ensures
            r.time == time,
            r.server_guid == server_guid,
            r.magic@ == magic_bytes(),
            r.motd == motd,
    {
        UnconnectedPong {
            time,
            server_guid,
            magic: magic(),
            motd,
        }
    }
}

impl ServerPacket for UnconnectedPong {
    open spec fn tag() -> PacketID {
        PacketID::UnconnectedPong
    }

    open spec fn fields(&self) -> Seq<FieldView> {
        seq![
            FieldView::I64(self.time),
            FieldView::I64(self.server_guid),
            FieldView::Magic(self.magic@),
            FieldView::Text(self.motd@),
        ]
    }

    fn id() -> (r: u8) {
        PacketID::UnconnectedPong.value()
    }

    fn compose(&self) -> (r: Result<Vec<u8>, EncodeError>)
    {
        let mut fields: Vec<Field> = Vec::new();
        fields.push(Field::I64(self.time));
        fields.push(Field::I64(self.server_guid));
        fields.push(Field::Magic(self.magic));
        fields.push(Field::Text(self.motd.clone()));
        assert(fields.deep_view() =~= self.fields());
        encode(Self::id(), &fields)
    }
}

/// The first request of the handshake. The client pads it to the size of datagram that it probes for.
#[derive(Debug, Clone)]
pub struct OpenConnectionRequest1 {
    /// The marker.
    pub magic: [u8; 16],
    /// The version of the protocol that the client speaks.
    pub protocol_version: u8,
    /// The size that the client probes for, taken from the length of the datagram.
    pub mtu: MTU,
}

impl ClientPacket for OpenConnectionRequest1 {
    open spec fn tag() -> PacketID {
        PacketID::OpenConnectionRequest1
    }

    open spec fn schema() -> Seq<FieldKind> {
        seq![FieldKind::Magic, FieldKind::U8, FieldKind::Mtu]
    }

    open spec fn fields(&self) -> Seq<FieldView> {
        seq![
            FieldView::Magic(self.magic@),
            FieldView::U8(self.protocol_version),
            FieldView::Mtu(self.mtu),
        ]
    }

    fn id() -> (r: u8) {
        PacketID::OpenConnectionRequest1.value()
    }

    fn parse(bytes: &[u8]) -> (r: Result<OpenConnectionRequest1, DecodeError>) {
        let kinds = [FieldKind::Magic, FieldKind::U8, FieldKind::Mtu];
        assert(kinds@ =~= Self::schema());
        proof {
            lemma_decoded_kinds(Self::schema(), bytes@);
        }
        let mut fields = match decode(kinds.as_slice(), bytes) {
            Ok(fields) => fields,
            Err(e) => {
                return Err(e);
            },
        };
        let ghost all = fields.deep_view();
        assert(all.len() == 3) by {
            assert(kinds_of(all).len() == all.len());
        }
        assert forall|i: int| 0 <= i < 3 implies (#[trigger] all[i]).kind() == Self::schema()[i] by {
            assert(kinds_of(all)[i] == all[i].kind());
        }
        assert(fields@.last()@ == all[2]);
        let mtu = Field::pop_mtu(&mut fields);
        assert(fields@.last()@ == all[1]);
        let protocol_version = Field::pop_u8(&mut fields);
        assert(fields@.last()@ == all[0]);
        let magic = Field::pop_magic(&mut fields);
        let packet = OpenConnectionRequest1 { magic, protocol_version, mtu };
        assert(packet.fields() =~= all);
        Ok(packet)
    }
}

/// The answer to the first request of the handshake.
#[derive(Debug, Clone)]
pub struct OpenConnectionReply1 {
    /// The marker.
    pub magic: [u8; 16],
    /// The identifier of the server.
    pub server_guid: u64,
    /// Whether the server asks for security.
    pub security: bool,
    /// The size of datagram that the server agrees to.
    pub mtu: u16,
}

impl OpenConnectionReply1 {
    /// A packet with the given fields and the protocol's marker.
    pub fn new(server_guid: u64, security: bool, mtu: u16) -> (r: OpenConnectionReply1)
        ensures
            r.magic@ == magic_bytes(),
            r.server_guid == server_guid,
            r.security == security,
            r.mtu == mtu,
    {
        OpenConnectionReply1 {
            magic: magic(),
            server_guid,
            security,
            mtu,
        }
    }
}

impl ServerPacket for OpenConnectionReply1 {
    open spec fn tag() -> PacketID {
        PacketID::OpenConnectionReply1
    }

    open spec fn fields(&self) -> Seq<FieldView> {
        seq![
            FieldView::Magic(self.magic@),
            FieldView::U64(self.server_guid),
            FieldView::Bool(self.security),
            FieldView::U16(self.mtu),
        ]
    }

    fn id() -> (r: u8) {
        PacketID::OpenConnectionReply1.value()
    }

    fn compose(&self) -> (r: Result<Vec<u8>, EncodeError>)
        ensures
            r is Ok,
    {
        let mut fields: Vec<Field> = Vec::new();
        fields.push(Field::Magic(self.magic));
        fields.push(Field::U64(self.server_guid));
        fields.push(Field::Bool(self.security));
        fields.push(Field::U16(self.mtu));
        assert(fields.deep_view() =~= self.fields());
        proof {
            lemma_no_error(self.fields());
        }
        encode(Self::id(), &fields)
    }
}

/// The second request of the handshake.
#[derive(Debug, Clone)]
pub struct OpenConnectionRequest2 {
    /// The marker.
    pub magic: [u8; 16],
    /// The address at which the client reaches the server.
    pub server_address: PeerAddress,
    /// The size of datagram that the client asks for.
    pub mtu: u16,
    /// The identifier of the client.
    pub client_guid: u64,
}

impl ClientPacket for OpenConnectionRequest2 {
    open spec fn tag() -> PacketID {
        PacketID::OpenConnectionRequest2
    }

    open spec fn schema() -> Seq<FieldKind> {
        seq![FieldKind::Magic, FieldKind::Address, FieldKind::U16, FieldKind::U64]
    }

    open spec fn fields(&self) -> Seq<FieldView> {
        seq![
            FieldView::Magic(self.magic@),
            FieldView::Address(self.server_address),
            FieldView::U16(self.mtu),
            FieldView::U64(self.client_guid),
        ]
    }

    fn id() -> (r: u8) {
        PacketID::OpenConnectionRequest2.value()
    }

    fn parse(bytes: &[u8]) -> (r: Result<OpenConnectionRequest2, DecodeError>) {
        let kinds = [FieldKind::Magic, FieldKind::Address, FieldKind::U16, FieldKind::U64];
        assert(kinds@ =~= Self::schema());
        proof {
            lemma_decoded_kinds(Self::schema(), bytes@);
        }
        let mut fields = match decode(kinds.as_slice(), bytes) {
            Ok(fields) => fields,
            Err(e) => {
                return Err(e);
            },
        };
        let ghost all = fields.deep_view();
        assert(all.len() == 4) by {
            assert(kinds_of(all).len() == all.len());
        }
        assert forall|i: int| 0 <= i < 4 implies (#[trigger] all[i]).kind() == Self::schema()[i] by {
            assert(kinds_of(all)[i] == all[i].kind());
        }
        assert(fields@.last()@ == all[3]);
        let client_guid = Field::pop_u64(&mut fields);
        assert(fields@.last()@ == all[2]);
        let mtu = Field::pop_u16(&mut fields);
        assert(fields@.last()@ == all[1]);
        let server_address = Field::pop_address(&mut fields);
        assert(fields@.last()@ == all[0]);
        let magic = Field::pop_magic(&mut fields);
        let packet = OpenConnectionRequest2 { magic, server_address, mtu, client_guid };
        assert(packet.fields() =~= all);
        Ok(packet)
    }
}

/// The answer to the second request of the handshake.
#[derive(Debug, Clone)]
pub struct OpenConnectionReply2 {
    /// The marker.
    pub magic: [u8; 16],
    /// The identifier of the server.
    pub server_guid: u64,
    /// The address of the client as the server sees it.
    pub client_address: PeerAddress,
    /// The size of datagram that the server agrees to.
    pub mtu: u16,
    /// Whether the session is encrypted.
    pub encryption: bool,
}

impl OpenConnectionReply2 {
    /// A packet with the given fields and the protocol's marker.
    pub fn new(server_guid: u64, client_address: PeerAddress, mtu: u16, encryption: bool) -> (r: OpenConnectionReply2)
        ensures
            r.magic@ == magic_bytes(),
            r.server_guid == server_guid,
            r.client_address == client_address,
            r.mtu == mtu,
            r.encryption == encryption,
    {
        OpenConnectionReply2 {
            magic: magic(),
            server_guid,
            client_address,
            mtu,
            encryption,
        }
    }
}

impl ServerPacket for OpenConnectionReply2 {
    open spec fn tag() -> PacketID {
        PacketID::OpenConnectionReply2
    }

    open spec fn fields(&self) -> Seq<FieldView> {
        seq![
            FieldView::Magic(self.magic@),
            FieldView::U64(self.server_guid),
            FieldView::Address(self.client_address),
            FieldView::U16(self.mtu),
            FieldView::Bool(self.encryption),
        ]
    }

    fn id() -> (r: u8) {
        PacketID::OpenConnectionReply2.value()
    }

    fn compose(&self) -> (r: Result<Vec<u8>, EncodeError>)
        ensures
            r is Ok,
    {
        let mut fields: Vec<Field> = Vec::new();
        fields.push(Field::Magic(self.magic));
        fields.push(Field::U64(self.server_guid));
        fields.push(Field::Address(self.client_address));
        fields.push(Field::U16(self.mtu));
        fields.push(Field::Bool(self.encryption));
        assert(fields.deep_view() =~= self.fields());
        proof {
            lemma_no_error(self.fields());
        }
        encode(Self::id(), &fields)
    }
}

/// The answer to a client that speaks another version of the protocol.
#[derive(Debug, Clone)]
pub struct IncompatibleProtocol {
    /// The version of the protocol that the server speaks.
    pub protocol: u8,
    /// The marker.
    pub magic: [u8; 16],
    /// The identifier of the server.
    pub server_guid: u64,
}

impl IncompatibleProtocol {
    /// A packet with the given fields and the protocol's marker.
    pub fn new(protocol: u8, server_guid: u64) -> (r: IncompatibleProtocol)
        ensures
            r.protocol == protocol,
            r.magic@ == magic_bytes(),
            r.server_guid == server_guid,
    {
        IncompatibleProtocol {
            protocol,
            magic: magic(),
            server_guid,
        }
    }
}

impl ServerPacket for IncompatibleProtocol {
    open spec fn tag() -> PacketID {
        PacketID::IncompatibleProtocol
    }

    open spec fn fields(&self) -> Seq<FieldView> {
        seq![
            FieldView::U8(self.protocol),
            FieldView::Magic(self.magic@),
            FieldView::U64(self.server_guid),
        ]
    }

    fn id() -> (r: u8) {
        PacketID::IncompatibleProtocol.value()
    }

    fn compose(&self) -> (r: Result<Vec<u8>, EncodeError>)
        ensures
            r is Ok,
    {
        let mut fields: Vec<Field> = Vec::new();
        fields.push(Field::U8(self.protocol));
        fields.push(Field::Magic(self.magic));
        fields.push(Field::U64(self.server_guid));
        assert(fields.deep_view() =~= self.fields());
        proof {
            lemma_no_error(self.fields());
        }
        encode(Self::id(), &fields)
    }
}

} // verus!
