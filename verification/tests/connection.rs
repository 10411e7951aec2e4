use raknet::connection::{
    clamp_mtu, is_magic, Connection, ConnectionHandler, State, MAXIMUM_MTU,
};
use raknet::internal::{generate_guid, Message, MetaInfo, PeerAddress, PROTOCOL_VERSION};
use raknet::protocol::MAGIC;
use raknet::server::socket::{receive, route, Route};
use raknet::server::stream::{send_to, StreamError};
use raknet::session::{Session, SessionManager};
use raknet::Motd;

const SERVER_GUID: u64 = 0x0102_0304_0506_0708;
const FRESH_GUID: u64 = 0xAABB_CCDD_1122_3344;

fn client() -> PeerAddress {
    PeerAddress::new([10, 0, 0, 7], 50000)
}

fn other_client() -> PeerAddress {
    PeerAddress::new([10, 0, 0, 8], 50000)
}

fn running() -> MetaInfo {
    let mut info = MetaInfo::new();
    info.bind(SERVER_GUID);
    info
}

fn descriptor() -> String {
    String::from("MCPE;Dedicated Server;")
}

/// A first request with the given version, padded to `padding` bytes after
/// the version.
fn request1(version: u8, padding: usize) -> Vec<u8> {
    let mut datagram = vec![0x05];
    datagram.extend_from_slice(&MAGIC);
    datagram.push(version);
    datagram.extend(std::iter::repeat(0u8).take(padding));
    datagram
}

/// A second request that asks for the size `mtu`.
fn request2(mtu: u16) -> Vec<u8> {
    let mut datagram = vec![0x07];
    datagram.extend_from_slice(&MAGIC);
    datagram.extend_from_slice(&[0x04, 192, 168, 0, 1, 0x4a, 0xbc]);
    datagram.extend_from_slice(&mtu.to_be_bytes());
    datagram.extend_from_slice(&0x1111_2222_3333_4444u64.to_be_bytes());
    datagram
}

fn reply1(mtu: u16) -> Vec<u8> {
    let mut datagram = vec![0x06];
    datagram.extend_from_slice(&MAGIC);
    datagram.extend_from_slice(&SERVER_GUID.to_be_bytes());
    datagram.push(0x00);
    datagram.extend_from_slice(&mtu.to_be_bytes());
    datagram
}

fn reply2(mtu: u16) -> Vec<u8> {
    let mut datagram = vec![0x08];
    datagram.extend_from_slice(&MAGIC);
    datagram.extend_from_slice(&SERVER_GUID.to_be_bytes());
    datagram.extend_from_slice(&[0x04, 10, 0, 0, 7, 0xc3, 0x50]);
    datagram.extend_from_slice(&mtu.to_be_bytes());
    datagram.push(0x00);
    datagram
}

fn incompatible() -> Vec<u8> {
    let mut datagram = vec![0x19, 11];
    datagram.extend_from_slice(&MAGIC);
    datagram.extend_from_slice(&SERVER_GUID.to_be_bytes());
    datagram
}

/// A handler in which `client()` has gone through the two requests.
fn connected(handler: &mut ConnectionHandler, info: &MetaInfo) {
    handler.on_datagram(info, &descriptor(), client(), &request1(PROTOCOL_VERSION, 1000), FRESH_GUID);
    handler.on_datagram(info, &descriptor(), client(), &request2(900), FRESH_GUID);
}

#[test]
fn protocol_version_is_eleven() {
    assert_eq!(PROTOCOL_VERSION, 11);
}

#[test]
fn new_connection_is_unconnected() {
    let connection = Connection::new(7, client(), 1200);
    assert_eq!(connection.guid, 7);
    assert_eq!(connection.addr, client());
    assert_eq!(connection.mtu, 1200);
    assert_eq!(connection.state, State::Unconnected);
}

#[test]
fn new_handler_knows_nobody() {
    let handler = ConnectionHandler::new();
    assert_eq!(handler.get_from_addr(&client()), None);
}

#[test]
fn ping_is_answered_with_the_descriptor() {
    let mut ping = vec![0x01];
    ping.extend_from_slice(&0x0000_0000_0000_1234i64.to_be_bytes());
    ping.extend_from_slice(&MAGIC);
    ping.extend_from_slice(&77i64.to_be_bytes());
    let outcome =
        Connection::handle_unconnected(&ping, client(), None, SERVER_GUID, &descriptor(), FRESH_GUID);
    let mut pong = vec![0x1c];
    pong.extend_from_slice(&0x0000_0000_0000_1234i64.to_be_bytes());
    pong.extend_from_slice(&SERVER_GUID.to_be_bytes());
    pong.extend_from_slice(&MAGIC);
    pong.extend_from_slice(&[0x00, 22]);
    pong.extend_from_slice(b"MCPE;Dedicated Server;");
    assert_eq!(outcome.reply, Some(pong));
    assert_eq!(outcome.session, None);
}

#[test]
fn second_kind_of_ping_is_answered_too() {
    let mut ping = vec![0x02];
    ping.extend_from_slice(&5i64.to_be_bytes());
    ping.extend_from_slice(&MAGIC);
    ping.extend_from_slice(&77i64.to_be_bytes());
    let outcome =
        Connection::handle_unconnected(&ping, client(), None, SERVER_GUID, &descriptor(), FRESH_GUID);
    assert_eq!(outcome.reply.map(|reply| reply[0]), Some(0x1c));
}

#[test]
fn server_identifier_with_the_top_bit_set_is_written_as_it_is() {
    let mut ping = vec![0x01];
    ping.extend_from_slice(&(-1i64).to_be_bytes());
    ping.extend_from_slice(&MAGIC);
    ping.extend_from_slice(&0i64.to_be_bytes());
    let outcome = Connection::handle_unconnected(
        &ping,
        client(),
        None,
        0xFFFF_FFFF_FFFF_FFFE,
        &String::new(),
        FRESH_GUID,
    );
    let mut pong = vec![0x1c];
    pong.extend_from_slice(&[0xff; 8]);
    pong.extend_from_slice(&[0xff, 0xff, 0xff, 0xff, 0xff, 0xff, 0xff, 0xfe]);
    pong.extend_from_slice(&MAGIC);
    pong.extend_from_slice(&[0x00, 0x00]);
    assert_eq!(outcome.reply, Some(pong));
}

#[test]
fn ping_without_the_marker_is_dropped() {
    let mut ping = vec![0x01];
    ping.extend_from_slice(&5i64.to_be_bytes());
    ping.extend_from_slice(&[0u8; 16]);
    ping.extend_from_slice(&77i64.to_be_bytes());
    let outcome =
        Connection::handle_unconnected(&ping, client(), None, SERVER_GUID, &descriptor(), FRESH_GUID);
    assert_eq!(outcome.reply, None);
    assert_eq!(outcome.session, None);
}

#[test]
fn ping_whose_answer_cannot_be_written_is_dropped() {
    let mut ping = vec![0x01];
    ping.extend_from_slice(&5i64.to_be_bytes());
    ping.extend_from_slice(&MAGIC);
    ping.extend_from_slice(&77i64.to_be_bytes());
    let long = "d".repeat(0x1_0000);
    let outcome = Connection::handle_unconnected(&ping, client(), None, SERVER_GUID, &long, FRESH_GUID);
    assert_eq!(outcome.reply, None);
    assert_eq!(outcome.session, None);
}

#[test]
fn first_request_opens_a_connection() {
    let outcome = Connection::handle_unconnected(
        &request1(PROTOCOL_VERSION, 1000),
        client(),
        None,
        SERVER_GUID,
        &descriptor(),
        FRESH_GUID,
    );
    assert_eq!(outcome.reply, Some(reply1(1000)));
    assert_eq!(
        outcome.session,
        Some(Connection { guid: FRESH_GUID, addr: client(), mtu: 1000, state: State::Connected })
    );
}

#[test]
fn probed_size_is_clamped_to_the_maximum() {
    let outcome = Connection::handle_unconnected(
        &request1(PROTOCOL_VERSION, 3000),
        client(),
        None,
        SERVER_GUID,
        &descriptor(),
        FRESH_GUID,
    );
    assert_eq!(MAXIMUM_MTU, 1492);
    assert_eq!(outcome.reply, Some(reply1(1492)));
    assert_eq!(outcome.session.map(|connection| connection.mtu), Some(1492));
    assert_eq!(clamp_mtu(1492), 1492);
    assert_eq!(clamp_mtu(1491), 1491);
    assert_eq!(clamp_mtu(1493), 1492);
    assert_eq!(clamp_mtu(0), 0);
    assert_eq!(clamp_mtu(u16::MAX), 1492);
}

#[test]
fn first_request_with_another_version_is_refused() {
    let mut handler = ConnectionHandler::new();
    let info = running();
    let dispatch =
        handler.on_datagram(&info, &descriptor(), client(), &request1(10, 1000), FRESH_GUID);
    assert_eq!(dispatch.reply, Some(incompatible()));
    assert_eq!(dispatch.delivery, None);
    assert_eq!(handler.get_from_addr(&client()), None);
}

#[test]
fn first_request_without_the_marker_is_dropped() {
    let mut datagram = request1(PROTOCOL_VERSION, 1000);
    datagram[16] ^= 0xff;
    let mut handler = ConnectionHandler::new();
    let info = running();
    let dispatch = handler.on_datagram(&info, &descriptor(), client(), &datagram, FRESH_GUID);
    assert_eq!(dispatch.reply, None);
    assert_eq!(handler.get_from_addr(&client()), None);
}

#[test]
fn truncated_request_changes_nothing() {
    let mut handler = ConnectionHandler::new();
    let info = running();
    connected(&mut handler, &info);
    let before = handler.get_from_addr(&client());
    let whole = request2(500);
    let dispatch =
        handler.on_datagram(&info, &descriptor(), client(), &whole[..whole.len() - 1], FRESH_GUID);
    assert_eq!(dispatch.reply, None);
    assert_eq!(dispatch.delivery, None);
    assert_eq!(handler.get_from_addr(&client()), before);
    let dispatch = handler.on_datagram(&info, &descriptor(), other_client(), &[0x05, 0x00], FRESH_GUID);
    assert_eq!(dispatch.reply, None);
    assert_eq!(handler.get_from_addr(&other_client()), None);
}

#[test]
fn handshake_runs_through_its_states() {
    let mut handler = ConnectionHandler::new();
    let info = running();

    let dispatch = handler.on_datagram(
        &info,
        &descriptor(),
        client(),
        &request1(PROTOCOL_VERSION, 1000),
        FRESH_GUID,
    );
    assert_eq!(dispatch.reply, Some(reply1(1000)));
    assert_eq!(
        handler.get_from_addr(&client()),
        Some(Connection { guid: FRESH_GUID, addr: client(), mtu: 1000, state: State::Connected })
    );

    let dispatch = handler.on_datagram(&info, &descriptor(), client(), &request2(2000), 1);
    assert_eq!(dispatch.reply, Some(reply2(1492)));
    assert_eq!(
        handler.get_from_addr(&client()),
        Some(Connection { guid: FRESH_GUID, addr: client(), mtu: 1492, state: State::Connected })
    );

    let dispatch = handler.on_datagram(&info, &descriptor(), client(), &request2(900), 2);
    assert_eq!(dispatch.reply, Some(reply2(900)));
    assert_eq!(handler.get_from_addr(&client()).map(|connection| connection.mtu), Some(900));

    let dispatch = handler.on_datagram(&info, &descriptor(), client(), &[0x13, 1, 2, 3], 3);
    assert_eq!(dispatch.reply, None);
    assert_eq!(
        handler.get_from_addr(&client()),
        Some(Connection {
            guid: FRESH_GUID,
            addr: client(),
            mtu: 900,
            state: State::FullyConnected
        })
    );

    let payload = vec![0xfe, 9, 8, 7];
    let dispatch = handler.on_datagram(&info, &descriptor(), client(), &payload, 4);
    assert_eq!(dispatch.reply, None);
    assert_eq!(dispatch.delivery, Some((client(), payload)));

    let dispatch = handler.on_datagram(&info, &descriptor(), client(), &[0x15], 5);
    assert_eq!(dispatch.reply, None);
    assert_eq!(dispatch.delivery, None);
    assert_eq!(handler.get_from_addr(&client()), None);

    // the peer starts again from nothing
    let dispatch = handler.on_datagram(&info, &descriptor(), client(), &request2(900), 6);
    assert_eq!(dispatch.reply, None);
    assert_eq!(handler.get_from_addr(&client()), None);
    let dispatch =
        handler.on_datagram(&info, &descriptor(), client(), &request1(PROTOCOL_VERSION, 600), 7);
    assert_eq!(dispatch.reply, Some(reply1(600)));
    assert_eq!(
        handler.get_from_addr(&client()),
        Some(Connection { guid: 7, addr: client(), mtu: 600, state: State::Connected })
    );
}

#[test]
fn second_request_needs_the_first() {
    let outcome = Connection::handle_unconnected(
        &request2(900),
        client(),
        None,
        SERVER_GUID,
        &descriptor(),
        FRESH_GUID,
    );
    assert_eq!(outcome.reply, None);
    assert_eq!(outcome.session, None);
    let full = Connection { guid: 1, addr: client(), mtu: 900, state: State::FullyConnected };
    let outcome = Connection::handle_unconnected(
        &request2(900),
        client(),
        Some(full),
        SERVER_GUID,
        &descriptor(),
        FRESH_GUID,
    );
    assert_eq!(outcome.reply, None);
    assert_eq!(outcome.session, None);
}

#[test]
fn second_request_without_the_marker_is_dropped() {
    let mut datagram = request2(900);
    datagram[1] = 0x01;
    let known = Connection { guid: 1, addr: client(), mtu: 1000, state: State::Connected };
    let outcome = Connection::handle_unconnected(
        &datagram,
        client(),
        Some(known),
        SERVER_GUID,
        &descriptor(),
        FRESH_GUID,
    );
    assert_eq!(outcome.reply, None);
    assert_eq!(outcome.session, None);
}

#[test]
fn confirmation_needs_a_connection() {
    let outcome = Connection::handle_unconnected(
        &[0x13],
        client(),
        None,
        SERVER_GUID,
        &descriptor(),
        FRESH_GUID,
    );
    assert_eq!(outcome.reply, None);
    assert_eq!(outcome.session, None);
}

#[test]
fn tags_without_a_transition_are_dropped() {
    let known = Connection { guid: 1, addr: client(), mtu: 1000, state: State::Connected };
    for tag in [0x09u8, 0x00, 0x03, 0x06, 0x08, 0x10, 0x19, 0x1c, 0xa0, 0xc0, 0xfe, 0xff, 0x42] {
        let outcome = Connection::handle_unconnected(
            &[tag, 1, 2, 3],
            client(),
            Some(known),
            SERVER_GUID,
            &descriptor(),
            FRESH_GUID,
        );
        assert_eq!(outcome.reply, None);
        assert_eq!(outcome.session, None);
    }
    let outcome =
        Connection::handle_unconnected(&[], client(), Some(known), SERVER_GUID, &descriptor(), 0);
    assert_eq!(outcome.reply, None);
    assert_eq!(outcome.session, None);
}

#[test]
fn datagram_of_a_stranger_is_dropped() {
    let mut handler = ConnectionHandler::new();
    let info = running();
    let dispatch = handler.on_datagram(&info, &descriptor(), client(), &[0xfe, 1, 2], FRESH_GUID);
    assert_eq!(dispatch.reply, None);
    assert_eq!(dispatch.delivery, None);
    assert_eq!(handler.get_from_addr(&client()), None);
    connected(&mut handler, &info);
    // connected, but the handshake is not complete
    let dispatch = handler.on_datagram(&info, &descriptor(), client(), &[0xfe, 1, 2], FRESH_GUID);
    assert_eq!(dispatch.delivery, None);
}

#[test]
fn one_peer_does_not_touch_another() {
    let mut handler = ConnectionHandler::new();
    let info = running();
    connected(&mut handler, &info);
    let before = handler.get_from_addr(&client());
    handler.on_datagram(&info, &descriptor(), other_client(), &request1(PROTOCOL_VERSION, 700), 9);
    handler.on_datagram(&info, &descriptor(), other_client(), &[0x13], 9);
    handler.on_datagram(&info, &descriptor(), other_client(), &[0x15], 9);
    assert_eq!(handler.get_from_addr(&client()), before);
    assert_eq!(handler.get_from_addr(&other_client()), None);
}

#[test]
fn stopped_listener_delivers_nothing() {
    let mut handler = ConnectionHandler::new();
    let mut info = running();
    connected(&mut handler, &info);
    handler.on_datagram(&info, &descriptor(), client(), &[0x13], FRESH_GUID);
    let before = handler.get_from_addr(&client());
    assert_eq!(before.map(|connection| connection.state), Some(State::FullyConnected));

    info.shutdown();
    assert!(!info.enabled);
    let dispatch = handler.on_datagram(&info, &descriptor(), client(), &[0xfe, 1], FRESH_GUID);
    assert_eq!(dispatch.reply, None);
    assert_eq!(dispatch.delivery, None);
    assert_eq!(handler.update(&info, Message::Packet(client(), vec![0xfe, 1])), None);
    let dispatch = handler.on_datagram(&info, &descriptor(), client(), &[0x15], FRESH_GUID);
    assert_eq!(dispatch.reply, None);
    assert_eq!(handler.get_from_addr(&client()), before);
    let dispatch = handler.on_datagram(
        &info,
        &descriptor(),
        other_client(),
        &request1(PROTOCOL_VERSION, 100),
        FRESH_GUID,
    );
    assert_eq!(dispatch.reply, None);
    assert_eq!(handler.get_from_addr(&other_client()), None);
}

#[test]
fn handler_enters_what_the_message_says() {
    let mut handler = ConnectionHandler::new();
    let info = running();
    let fresh = Connection::new(1, client(), 1000);
    assert_eq!(handler.update(&info, Message::OpenSession(fresh)), None);
    assert_eq!(handler.get_from_addr(&client()), None);

    let open = Connection { guid: 1, addr: client(), mtu: 1000, state: State::Connected };
    assert_eq!(handler.update(&info, Message::OpenSession(open)), None);
    assert_eq!(handler.get_from_addr(&client()), Some(open));

    let full = Connection { guid: 2, addr: client(), mtu: 800, state: State::FullyConnected };
    assert_eq!(handler.update(&info, Message::OpenSession(full)), None);
    assert_eq!(handler.get_from_addr(&client()), Some(full));
    assert_eq!(
        handler.update(&info, Message::Packet(client(), vec![1, 2, 3])),
        Some((client(), vec![1, 2, 3]))
    );
    assert_eq!(handler.update(&info, Message::Packet(other_client(), vec![1, 2, 3])), None);

    let gone = Connection { guid: 2, addr: client(), mtu: 800, state: State::Disconnected };
    assert_eq!(handler.update(&info, Message::OpenSession(gone)), None);
    assert_eq!(handler.get_from_addr(&client()), None);
}

#[test]
fn socket_routes_by_the_first_byte() {
    assert_eq!(route(&[]), Route::Ignore);
    for tag in [0x01u8, 0x02, 0x05, 0x07, 0x09, 0x13, 0x15] {
        assert_eq!(route(&[tag, 0, 0]), Route::Unconnected);
    }
    for tag in [0x00u8, 0x03, 0x06, 0x08, 0x10, 0x19, 0x1c, 0xfe, 0xa0, 0xc0, 0xff, 0x04] {
        assert_eq!(route(&[tag, 0, 0]), Route::Session);
    }
}

#[test]
fn socket_hands_session_datagrams_to_the_handler() {
    let received = receive(&[0xfe, 1, 2, 3], client(), None, SERVER_GUID, &descriptor(), FRESH_GUID);
    assert_eq!(received.reply, None);
    match received.message {
        Some(Message::Packet(addr, bytes)) => {
            assert_eq!(addr, client());
            assert_eq!(bytes, vec![0xfe, 1, 2, 3]);
        }
        _ => panic!("the datagram was not handed on"),
    }
    let received = receive(&[], client(), None, SERVER_GUID, &descriptor(), FRESH_GUID);
    assert_eq!(received.reply, None);
    assert!(received.message.is_none());
    let received = receive(
        &request1(PROTOCOL_VERSION, 512),
        client(),
        None,
        SERVER_GUID,
        &descriptor(),
        FRESH_GUID,
    );
    assert_eq!(received.reply, Some(reply1(512)));
    assert!(matches!(
        received.message,
        Some(Message::OpenSession(Connection { mtu: 512, state: State::Connected, .. }))
    ));
}

#[test]
fn marker_is_compared_byte_by_byte() {
    assert!(is_magic(&MAGIC));
    for i in 0..16 {
        let mut marker = MAGIC;
        marker[i] ^= 0x01;
        assert!(!is_magic(&marker));
    }
}

#[test]
fn sending_needs_an_address() {
    assert_eq!(send_to(b"Hi there!", &vec![]).unwrap_err(), StreamError::NoAddress);
    let packets = send_to(b"Hi there!", &vec![client(), other_client()]).unwrap();
    assert_eq!(
        packets,
        vec![(client(), b"Hi there!".to_vec()), (other_client(), b"Hi there!".to_vec())]
    );
    let packets = send_to(b"", &vec![client()]).unwrap();
    assert_eq!(packets, vec![(client(), vec![])]);
}

#[test]
fn listener_state_follows_bind_and_shutdown() {
    let mut info = MetaInfo::new();
    assert!(!info.enabled);
    assert_eq!(info.guid, 0);
    assert_eq!(info.motd.motd_line1, "");

    info.bind(42);
    assert!(info.enabled);
    assert_eq!(info.guid, 42);

    let mut motd = Motd::default();
    motd.motd_line1 = "Some Minecraft Bedrock Server".to_string();
    motd.max_player_count = 20;
    info.set_motd(motd);
    assert_eq!(info.motd.motd_line1, "Some Minecraft Bedrock Server");
    assert_eq!(info.motd.max_player_count, 20);
    assert!(info.enabled);
    assert_eq!(info.guid, 42);

    info.shutdown();
    assert!(!info.enabled);
    assert_eq!(info.guid, 42);
    assert_eq!(info.motd.motd_line1, "Some Minecraft Bedrock Server");
}

#[test]
fn blank_descriptor() {
    let motd = Motd::default();
    assert_eq!(motd.edition, "");
    assert_eq!(motd.motd_line1, "");
    assert_eq!(motd.protocol_version, 0);
    assert_eq!(motd.version_name, "");
    assert_eq!(motd.max_player_count, 0);
    assert_eq!(motd.motd_line2, "");
    assert_eq!(motd.game_mode, "");
    assert_eq!(motd.game_mode_numeric, 0);
}

#[test]
fn identifiers_are_drawn_at_random() {
    let drawn: Vec<u64> = (0..8).map(|_| generate_guid()).collect();
    assert!(drawn.iter().any(|guid| *guid != drawn[0]));
}

#[test]
fn address_is_its_octets_and_port() {
    let addr = PeerAddress::new([127, 0, 0, 1], 19132);
    assert_eq!(addr.ip, 0x7F00_0001);
    assert_eq!(addr.octets(), [127, 0, 0, 1]);
    assert_eq!(addr.port(), 19132);
    assert_eq!(addr.key(), 0x7F00_0001_4ABC);
    assert_ne!(addr.key(), PeerAddress::new([127, 0, 0, 1], 19133).key());
    assert_ne!(addr.key(), PeerAddress::new([127, 0, 1, 0], 19132).key());
}

#[test]
fn session_is_a_connection() {
    let session = Session::new(3, client(), 1000);
    assert_eq!(session, Connection::new(3, client(), 1000));
    let manager = SessionManager::new();
    assert_eq!(manager.get_from_addr(&client()), None);
}

#[test]
fn eviction_forgets_the_peer() {
    let mut handler = ConnectionHandler::new();
    let info = running();
    connected(&mut handler, &info);
    let held = handler.get_from_addr(&client());
    assert!(held.is_some());
    assert_eq!(handler.evict(&other_client()), None);
    assert_eq!(handler.get_from_addr(&client()), held);
    assert_eq!(handler.evict(&client()), held);
    assert_eq!(handler.get_from_addr(&client()), None);
    assert_eq!(handler.evict(&client()), None);
    // the peer starts again from nothing
    let dispatch = handler.on_datagram(&info, &descriptor(), client(), &request2(900), 1);
    assert_eq!(dispatch.reply, None);
    assert_eq!(handler.get_from_addr(&client()), None);
}
