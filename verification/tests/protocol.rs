use raknet::internal::{u24, PeerAddress};
use raknet::protocol::codec::{
    decode, encode, DecodeError, EncodeError, Field, FieldKind, MTU,
};
use raknet::protocol::{PacketID, MAGIC};

// The name is not related to the actual package.
// This is necessary for the `id()` method to work correctly
#[allow(dead_code)]
struct ConnectedPing {
    bool: bool,
    ubyte: u8,
    byte: i8,
    ushort: u16,
    short: i16,
    uint: u32,
    int: i32,
    ulong: u64,
    long: i64,
    string: String,
    magic: [u8; 16],
    addr: PeerAddress,
    u24_le: u24,
}

impl ConnectedPing {
    #[allow(clippy::too_many_arguments)]
    fn new(
        bool: bool,
        ubyte: u8,
        byte: i8,
        ushort: u16,
        short: i16,
        uint: u32,
        int: i32,
        ulong: u64,
        long: i64,
        string: String,
        addr: PeerAddress,
        u24_le: u24,
    ) -> Self {
        ConnectedPing {
            bool,
            ubyte,
            byte,
            ushort,
            short,
            uint,
            int,
            ulong,
            long,
            string,
            magic: [0u8; 16],
            addr,
            u24_le,
        }
    }

    fn id() -> u8 {
        PacketID::ConnectedPing.value()
    }

    fn compose(&self) -> Result<Vec<u8>, EncodeError> {
        encode(
            Self::id(),
            &vec![
                Field::Bool(self.bool),
                Field::U8(self.ubyte),
                Field::I8(self.byte),
                Field::U16(self.ushort),
                Field::I16(self.short),
                Field::U32(self.uint),
                Field::I32(self.int),
                Field::U64(self.ulong),
                Field::I64(self.long),
                Field::Text(self.string.clone()),
                Field::Magic(self.magic),
                Field::Address(self.addr),
                Field::U24(self.u24_le),
            ],
        )
    }
}

// The name is not related to the actual package.
// This is necessary for the `id()` method to work correctly
#[allow(dead_code)]
struct ConnectedPong {
    bool: bool,
    ubyte: u8,
    byte: i8,
    ushort: u16,
    short: i16,
    uint: u32,
    int: i32,
    ulong: u64,
    long: i64,
    string: String,
    magic: [u8; 16],
    addr: PeerAddress,
    u24_le: u24,
}

const ALL_KINDS: [FieldKind; 13] = [
    FieldKind::Bool,
    FieldKind::U8,
    FieldKind::I8,
    FieldKind::U16,
    FieldKind::I16,
    FieldKind::U32,
    FieldKind::I32,
    FieldKind::U64,
    FieldKind::I64,
    FieldKind::Text,
    FieldKind::Magic,
    FieldKind::Address,
    FieldKind::U24,
];

impl ConnectedPong {
    fn id() -> u8 {
        PacketID::ConnectedPong.value()
    }

    fn parse(bytes: &[u8]) -> Result<Self, DecodeError> {
        let fields = decode(&ALL_KINDS, bytes)?;
        match &fields[..] {
            [Field::Bool(bool), Field::U8(ubyte), Field::I8(byte), Field::U16(ushort), Field::I16(short), Field::U32(uint), Field::I32(int), Field::U64(ulong), Field::I64(long), Field::Text(string), Field::Magic(magic), Field::Address(addr), Field::U24(u24_le)] => {
                Ok(ConnectedPong {
                    bool: *bool,
                    ubyte: *ubyte,
                    byte: *byte,
                    ushort: *ushort,
                    short: *short,
                    uint: *uint,
                    int: *int,
                    ulong: *ulong,
                    long: *long,
                    string: string.clone(),
                    magic: *magic,
                    addr: *addr,
                    u24_le: *u24_le,
                })
            }
            _ => unreachable!(),
        }
    }
}

/// `127.0.0.1:19132`.
fn local_address() -> PeerAddress {
    PeerAddress::new([127, 0, 0, 1], 19132)
}

/// The address as text, `a.b.c.d:port`.
fn address_text(addr: &PeerAddress) -> String {
    let o = addr.octets();
    format!("{}.{}.{}.{}:{}", o[0], o[1], o[2], o[3], addr.port())
}

fn sample_bytes() -> Vec<u8> {
    Vec::<u8>::from([
        0x01, // bool
        0x01, // ubyte
        0x02, // byte
        0x00, 0x03, // ushort
        0x00, 0x04, // short
        0x00, 0x00, 0x00, 0x05, // uint
        0x00, 0x00, 0x00, 0x06, // int
        0x00, 0x00, 0x00, 0x00, 0x00, 0x00, 0x00, 0x07, //ulong
        0x00, 0x00, 0x00, 0x00, 0x00, 0x00, 0x00, 0x08, //long
        0x00, 0x0b, /* len */
        0x54, 0x65, 0x73, 0x74, 0x20, 0x73, 0x74, 0x72, 0x69, 0x6e, 0x67, // string
        0x00, 0xff, 0xff, 0x00, 0xfe, 0xfe, 0xfe, 0xfe, 0xfd, 0xfd, 0xfd, 0xfd, 0x12, 0x34,
        0x56, 0x78, // magic
        0x04, 0x7f, 0x00, 0x00, 0x01, 0x4a, 0xbc, // addr (ip version, ip, port)
        0x09, 0x00, 0x00, // u24_le
    ])
}

#[test]
fn server_packet_id() {
    assert_eq!(ConnectedPing::id(), 0x00);
}

#[test]
fn server_packet_new() {
    let ping = ConnectedPing::new(
        true,
        1u8,
        2i8,
        3u16,
        4i16,
        5u32,
        6i32,
        7u64,
        8i64,
        String::from("Test string"),
        local_address(),
        u24::from(9u32),
    );
    assert_eq!(ping.bool, true);
    assert_eq!(ping.ubyte, 1u8);
    assert_eq!(ping.byte, 2i8);
    assert_eq!(ping.ushort, 3u16);
    assert_eq!(ping.short, 4i16);
    assert_eq!(ping.uint, 5u32);
    assert_eq!(ping.int, 6i32);
    assert_eq!(ping.ulong, 7u64);
    assert_eq!(ping.long, 8i64);
    assert_eq!(ping.string, String::from("Test string"));
    assert_eq!(address_text(&ping.addr), String::from("127.0.0.1:19132"));
    assert_eq!(ping.u24_le, 9u32);
}

#[test]
fn server_packet_compose() {
    let ping = ConnectedPing::new(
        true,
        1u8,
        2i8,
        3u16,
        4i16,
        5u32,
        6i32,
        7u64,
        8i64,
        String::from("Test string"),
        local_address(),
        u24::from(9u32),
    );
    let packet = ping.compose().unwrap();
    let eq_packet = Vec::<u8>::from([
        0x00, // id
        0x01, // bool
        0x01, // ubyte
        0x02, // byte
        0x00, 0x03, // ushort
        0x00, 0x04, // short
        0x00, 0x00, 0x00, 0x05, //uint
        0x00, 0x00, 0x00, 0x06, // int
        0x00, 0x00, 0x00, 0x00, 0x00, 0x00, 0x00, 0x07, //ulong
        0x00, 0x00, 0x00, 0x00, 0x00, 0x00, 0x00, 0x08, //long
        0x00, 0x0b, /* len */
        0x54, 0x65, 0x73, 0x74, 0x20, 0x73, 0x74, 0x72, 0x69, 0x6e, 0x67, // string
        0x00, 0xff, 0xff, 0x00, 0xfe, 0xfe, 0xfe, 0xfe, 0xfd, 0xfd, 0xfd, 0xfd, 0x12, 0x34,
        0x56, 0x78, // magic
        0x04, 0x7f, 0x00, 0x00, 0x01, 0x4a, 0xbc, // addr (ip version, ip, port)
        0x09, 0x00, 0x00, // u24_le
    ]);

    assert_eq!(packet, eq_packet);
}

#[test]
fn client_packet_id() {
    assert_eq!(ConnectedPong::id(), 0x03)
}

#[test]
fn client_packet_parse() {
    // The packet from the client is stripped of the ID field after processing
    let raw_packet = sample_bytes();

    let pong = ConnectedPong::parse(&raw_packet).unwrap();

    assert_eq!(pong.bool, true);
    assert_eq!(pong.ubyte, 1u8);
    assert_eq!(pong.byte, 2i8);
    assert_eq!(pong.ushort, 3u16);
    assert_eq!(pong.short, 4i16);
    assert_eq!(pong.uint, 5u32);
    assert_eq!(pong.int, 6i32);
    assert_eq!(pong.ulong, 7u64);
    assert_eq!(pong.long, 8i64);
    assert_eq!(pong.string, String::from("Test string"));
    assert_eq!(address_text(&pong.addr), String::from("127.0.0.1:19132"));
    assert_eq!(pong.u24_le, 9u32);
    assert_eq!(pong.magic, MAGIC);
}

#[test]
fn every_number_is_written_big_endian() {
    let packet = encode(
        0xfe,
        &vec![
            Field::U16(0x1234),
            Field::I16(-2),
            Field::U32(0x1234_5678),
            Field::I32(-2),
            Field::U64(0x0102_0304_0506_0708),
            Field::I64(-2),
            Field::I8(-1),
            Field::U8(0x80),
        ],
    )
    .unwrap();
    assert_eq!(
        packet,
        vec![
            0xfe, 0x12, 0x34, 0xff, 0xfe, 0x12, 0x34, 0x56, 0x78, 0xff, 0xff, 0xff, 0xfe, 0x01,
            0x02, 0x03, 0x04, 0x05, 0x06, 0x07, 0x08, 0xff, 0xff, 0xff, 0xff, 0xff, 0xff, 0xff,
            0xfe, 0xff, 0x80,
        ]
    );
}

#[test]
fn every_number_is_read_big_endian() {
    let kinds = [
        FieldKind::U16,
        FieldKind::I16,
        FieldKind::U32,
        FieldKind::I32,
        FieldKind::U64,
        FieldKind::I64,
        FieldKind::I8,
        FieldKind::U8,
    ];
    let bytes = [
        0x12, 0x34, 0xff, 0xfe, 0x12, 0x34, 0x56, 0x78, 0xff, 0xff, 0xff, 0xfe, 0x01, 0x02, 0x03,
        0x04, 0x05, 0x06, 0x07, 0x08, 0xff, 0xff, 0xff, 0xff, 0xff, 0xff, 0xff, 0xfe, 0xff, 0x80,
    ];
    let fields = decode(&kinds, &bytes).unwrap();
    assert!(matches!(fields[0], Field::U16(0x1234)));
    assert!(matches!(fields[1], Field::I16(-2)));
    assert!(matches!(fields[2], Field::U32(0x1234_5678)));
    assert!(matches!(fields[3], Field::I32(-2)));
    assert!(matches!(fields[4], Field::U64(0x0102_0304_0506_0708)));
    assert!(matches!(fields[5], Field::I64(-2)));
    assert!(matches!(fields[6], Field::I8(-1)));
    assert!(matches!(fields[7], Field::U8(0x80)));
}

#[test]
fn u24_field_is_little_endian() {
    let packet = encode(0x00, &vec![Field::U24(u24::from(0x123456u32))]).unwrap();
    assert_eq!(packet, vec![0x00, 0x56, 0x34, 0x12]);
    let fields = decode(&[FieldKind::U24], &packet[1..]).unwrap();
    match &fields[0] {
        Field::U24(v) => assert_eq!(v.into_inner(), 0x123456),
        _ => panic!("not a 24-bit field"),
    }
}

#[test]
fn marker_is_written_whatever_the_record_holds() {
    let packet = encode(0x05, &vec![Field::Magic([7u8; 16])]).unwrap();
    assert_eq!(packet[0], 0x05);
    assert_eq!(&packet[1..], &MAGIC[..]);
}

#[test]
fn marker_is_read_without_validation() {
    let bytes = [7u8; 16];
    let fields = decode(&[FieldKind::Magic], &bytes).unwrap();
    assert!(matches!(fields[0], Field::Magic(m) if m == [7u8; 16]));
}

#[test]
fn bool_is_true_only_for_one() {
    let fields = decode(&[FieldKind::Bool, FieldKind::Bool, FieldKind::Bool], &[0, 1, 2]).unwrap();
    assert!(matches!(fields[0], Field::Bool(false)));
    assert!(matches!(fields[1], Field::Bool(true)));
    assert!(matches!(fields[2], Field::Bool(false)));
}

#[test]
fn address_family_byte_is_not_trusted() {
    let fields = decode(&[FieldKind::Address], &[0x06, 10, 0, 0, 1, 0x4a, 0xbc]).unwrap();
    match &fields[0] {
        Field::Address(addr) => assert_eq!(address_text(addr), "10.0.0.1:19132"),
        _ => panic!("not an address"),
    }
}

#[test]
fn text_prefix_beyond_the_datagram_fails() {
    // the prefix counts eleven bytes, ten follow
    let bytes = [0x00, 0x0b, 0x54, 0x65, 0x73, 0x74, 0x20, 0x73, 0x74, 0x72, 0x69, 0x6e];
    assert_eq!(decode(&[FieldKind::Text], &bytes).unwrap_err(), DecodeError::TextOverrun);
}

#[test]
fn text_that_is_not_utf8_fails() {
    let bytes = [0x00, 0x02, 0xc3, 0x28];
    assert_eq!(decode(&[FieldKind::Text], &bytes).unwrap_err(), DecodeError::InvalidUtf8);
}

#[test]
fn text_of_several_bytes_a_character() {
    let packet = encode(0x1c, &vec![Field::Text(String::from("héllo"))]).unwrap();
    assert_eq!(packet, vec![0x1c, 0x00, 0x06, 0x68, 0xc3, 0xa9, 0x6c, 0x6c, 0x6f]);
    let fields = decode(&[FieldKind::Text], &packet[1..]).unwrap();
    assert!(matches!(&fields[0], Field::Text(t) if t == "héllo"));
}

#[test]
fn truncated_fixed_width_field_fails() {
    assert_eq!(decode(&[FieldKind::U32], &[1, 2, 3]).unwrap_err(), DecodeError::UnexpectedEof);
    assert_eq!(decode(&[FieldKind::U64], &[1, 2, 3, 4, 5, 6, 7]).unwrap_err(), DecodeError::UnexpectedEof);
    assert_eq!(decode(&[FieldKind::Magic], &[0u8; 15]).unwrap_err(), DecodeError::UnexpectedEof);
    assert_eq!(decode(&[FieldKind::Address], &[4, 127, 0, 0, 1, 0]).unwrap_err(), DecodeError::UnexpectedEof);
    assert_eq!(decode(&[FieldKind::U24], &[1, 2]).unwrap_err(), DecodeError::UnexpectedEof);
    assert_eq!(decode(&[FieldKind::Text], &[0]).unwrap_err(), DecodeError::UnexpectedEof);
    assert_eq!(decode(&[FieldKind::Bool], &[]).unwrap_err(), DecodeError::UnexpectedEof);
}

#[test]
fn text_longer_than_the_prefix_can_count_is_refused() {
    let long = "a".repeat(0x1_0000);
    assert_eq!(encode(0x1c, &vec![Field::Text(long)]).unwrap_err(), EncodeError::TextTooLong);
    let longest = "a".repeat(0xFFFF);
    let packet = encode(0x1c, &vec![Field::Text(longest)]).unwrap();
    assert_eq!(packet.len(), 1 + 2 + 0xFFFF);
    assert_eq!(&packet[..3], &[0x1c, 0xff, 0xff]);
}

#[test]
fn probed_size_has_no_wire_form() {
    assert_eq!(encode(0x05, &vec![Field::Mtu(MTU(1400))]).unwrap_err(), EncodeError::SizePlaceholder);
}

#[test]
fn probed_size_is_the_number_of_bytes_left() {
    let mut bytes = vec![0x0b];
    bytes.extend_from_slice(&[0u8; 1000]);
    let fields = decode(&[FieldKind::U8, FieldKind::Mtu], &bytes).unwrap();
    assert!(matches!(fields[0], Field::U8(11)));
    assert!(matches!(fields[1], Field::Mtu(MTU(1000))));
}

#[test]
fn decoding_undoes_encoding() {
    let fields = vec![
        Field::Bool(false),
        Field::I64(i64::MIN),
        Field::U64(u64::MAX),
        Field::Text(String::from("")),
        Field::Magic(MAGIC),
        Field::Address(PeerAddress::new([192, 168, 1, 20], 65535)),
        Field::U24(u24::max_value()),
        Field::I32(i32::MIN),
    ];
    let kinds = [
        FieldKind::Bool,
        FieldKind::I64,
        FieldKind::U64,
        FieldKind::Text,
        FieldKind::Magic,
        FieldKind::Address,
        FieldKind::U24,
        FieldKind::I32,
    ];
    let packet = encode(0x42, &fields).unwrap();
    assert_eq!(packet[0], 0x42);
    let back = decode(&kinds, &packet[1..]).unwrap();
    assert_eq!(format!("{:?}", back), format!("{:?}", fields));
}

#[test]
fn tags_of_the_catalog() {
    let catalog = [
        (PacketID::ConnectedPing, 0x00u8),
        (PacketID::UnconnectedPing, 0x01),
        (PacketID::UnconnectedPing2, 0x02),
        (PacketID::ConnectedPong, 0x03),
        (PacketID::OpenConnectionRequest1, 0x05),
        (PacketID::OpenConnectionReply1, 0x06),
        (PacketID::OpenConnectionRequest2, 0x07),
        (PacketID::OpenConnectionReply2, 0x08),
        (PacketID::ConnectionRequest, 0x09),
        (PacketID::ConnectionRequestAccepted, 0x10),
        (PacketID::NewIncomingConnection, 0x13),
        (PacketID::Disconnect, 0x15),
        (PacketID::IncompatibleProtocol, 0x19),
        (PacketID::UnconnectedPong, 0x1c),
        (PacketID::GamePacket, 0xfe),
        (PacketID::NACK, 0xa0),
        (PacketID::ACK, 0xc0),
        (PacketID::Unknown, 0xff),
    ];
    for (id, byte) in catalog {
        assert_eq!(id.value(), byte);
        assert_eq!(PacketID::from(byte), id);
    }
    assert_eq!(PacketID::from(0x04), PacketID::Unknown);
    assert_eq!(PacketID::from(0x77), PacketID::Unknown);
}
