use mcsniff::get_client_ip_from_packet;
use mcsniff::parser::ether_ip::{IPPacketInfo, IpAddress};
use mcsniff::parser::tcp::{TCPPacketInfo, TCP_FLAG_ACK, TCP_FLAG_FIN, TCP_FLAG_PSH, TCP_FLAG_SYN};
use mcsniff::protocol::listener::MinecraftListener;
use mcsniff::protocol::packets::Packet;
use mcsniff::protocol::types::error::DatatypeError;
use mcsniff::protocol::types::identifier::Identifier;
use mcsniff::protocol::types::reader::Reader;
use mcsniff::protocol::types::state::State;
use mcsniff::protocol::types::string::read_string;
use mcsniff::protocol::types::var_num::encode_varint;
use mcsniff::sniffer::FrameSplitter;
use mcsniff::tcp_connection::{ConnectionState, TCPConnection};
use std::io::Read;

const SERVER: IpAddress = IpAddress::V4(0xC0A80102);
const CLIENT: IpAddress = IpAddress::V4(0x0A000007);

fn tcp_segment(seq: u32, flags: u16, payload: &[u8]) -> TCPPacketInfo {
    let mut out = vec![0u8; 20];
    out[4..8].copy_from_slice(&seq.to_be_bytes());
    let offset_and_flags: u16 = (5 << 12) | flags;
    out[12] = (offset_and_flags >> 8) as u8;
    out[13] = (offset_and_flags & 0xff) as u8;
    out.extend_from_slice(payload);
    TCPPacketInfo::from_bytes(&out).unwrap()
}

fn handshake_frame() -> Vec<u8> {
    vec![
        0x10, 0x00, 0xFF, 0x01, 0x09, b's', b'e', b'r', b'v', b'e', b'r', b'.', b'i', b'o', 0x63,
        0xDD, 0x02,
    ]
}

#[test]
fn reader_primitives_exact() {
    let mut r = Reader::new(vec![0x12, 0x34, 0, 0, 0, 0, 0, 0, 0, 1, 0x01, 0x00, 0xFF]);
    assert_eq!(r.remaining(), 13);
    assert_eq!(r.read_u16().unwrap(), 0x1234);
    assert_eq!(r.remaining(), 11);
    assert_eq!(r.read_i64().unwrap(), 1);
    assert!(r.read_bool().unwrap());
    assert!(!r.read_bool().unwrap());
    assert_eq!(r.read_i8().unwrap(), -1);
    assert!(matches!(r.read_u8(), Err(DatatypeError::NotEnoughData)));
}

#[test]
fn string_decodes_multibyte() {
    // "é" is two bytes in UTF-8; a wrapper handing bytes back unchanged
    // could not produce this one-character string
    let mut bytes = encode_varint(2);
    bytes.extend_from_slice("é".as_bytes());
    let mut r = Reader::new(bytes);
    let s = read_string(&mut r).unwrap();
    assert_eq!(s, "é");
    assert_eq!(s.chars().count(), 1);
}

#[test]
fn string_rejects_bad_utf8() {
    let mut bytes = encode_varint(2);
    bytes.extend_from_slice(&[0xFF, 0xFE]);
    let mut r = Reader::new(bytes);
    assert!(matches!(read_string(&mut r), Err(DatatypeError::Invalid)));
}

fn string_field(s: &str) -> Vec<u8> {
    let mut out = encode_varint(s.len() as u32);
    out.extend_from_slice(s.as_bytes());
    out
}

#[test]
fn identifier_splits_on_first_colon() {
    let mut r = Reader::new(string_field("minecraft:brand:extra"));
    let id = Identifier::from_bytes(&mut r).unwrap();
    assert_eq!(id.namespace, "minecraft");
    assert_eq!(id.value, "brand:extra");
}

#[test]
fn identifier_without_colon_fails() {
    let mut r = Reader::new(string_field("noseparator"));
    assert!(matches!(Identifier::from_bytes(&mut r), Err(DatatypeError::Invalid)));
}

#[test]
fn client_ip_picks_the_peer() {
    let frame = IPPacketInfo {
        src_mac: vec![0; 6],
        dst_mac: vec![0; 6],
        ether_type: 0x0800,
        payload_protocol: 6,
        src_ip: SERVER,
        dst_ip: CLIENT,
        payload: vec![],
    };
    assert_eq!(get_client_ip_from_packet(&frame, SERVER), (CLIENT, false));
    let frame_back = IPPacketInfo { src_ip: CLIENT, dst_ip: SERVER, ..frame };
    assert_eq!(get_client_ip_from_packet(&frame_back, SERVER), (CLIENT, true));
}

#[test]
fn end_to_end_handshake_then_login_ack() {
    let mut conn = TCPConnection::new();
    let mut splitter = FrameSplitter::new();
    let mut listener = MinecraftListener::new(SERVER, CLIENT);

    assert!(conn.process_packet(tcp_segment(99, TCP_FLAG_SYN, &[]), true).is_none());
    let delivered = conn.process_packet(
        tcp_segment(100, TCP_FLAG_PSH | TCP_FLAG_ACK, &handshake_frame()),
        true,
    );
    let msg = match delivered {
        Some(ConnectionState::Data(d, true)) => d,
        other => panic!("expected a server-bound message, got {other:?}"),
    };
    let frame = splitter.push_data(msg).unwrap().expect("one whole frame");
    assert_eq!(frame.len(), 16);
    let packet = listener.parse_packet(&frame, true).unwrap();
    match packet {
        Packet::Handshake(h) => {
            assert_eq!(h.protocol_version.value, 255);
            assert_eq!(h.server_address, "server.io");
            assert_eq!(h.server_port, 25565);
            assert_eq!(h.next_state, State::Login);
        },
        other => panic!("expected a handshake, got {other:?}"),
    }
    assert_eq!(listener.state, State::Login);

    let packet = listener.parse_packet(&[0x03], true).unwrap();
    assert!(matches!(packet, Packet::LoginAcknowledged(_)));
    assert_eq!(listener.state, State::Configuration);
}

#[test]
fn reassembly_is_order_independent() {
    let payloads: [&[u8]; 3] = [b"alpha", b"beta!", b"gamma"];
    let orders: [[usize; 3]; 6] =
        [[0, 1, 2], [0, 2, 1], [1, 0, 2], [1, 2, 0], [2, 0, 1], [2, 1, 0]];
    for order in orders {
        let mut conn = TCPConnection::new();
        assert!(conn.process_packet(tcp_segment(0, TCP_FLAG_SYN, &[]), true).is_none());
        let segs = [
            tcp_segment(1, TCP_FLAG_ACK, payloads[0]),
            tcp_segment(6, TCP_FLAG_ACK, payloads[1]),
            tcp_segment(11, TCP_FLAG_PSH | TCP_FLAG_ACK, payloads[2]),
        ];
        let mut outputs = Vec::new();
        for k in order {
            outputs.push(conn.process_packet(segs[k].clone(), true));
        }
        assert!(outputs[0].is_none());
        assert!(outputs[1].is_none());
        match outputs[2].as_ref() {
            Some(ConnectionState::Data(d, true)) => {
                assert_eq!(d.as_slice(), b"alphabeta!gamma");
            },
            other => panic!("expected the full message last, got {other:?}"),
        }
    }
}

#[test]
fn retransmission_delivers_once() {
    let mut conn = TCPConnection::new();
    assert!(conn.process_packet(tcp_segment(7, TCP_FLAG_SYN, &[]), true).is_none());
    let seg = tcp_segment(8, TCP_FLAG_PSH | TCP_FLAG_ACK, b"hello");
    match conn.process_packet(seg.clone(), true) {
        Some(ConnectionState::Data(d, true)) => assert_eq!(d.as_slice(), b"hello"),
        other => panic!("expected the payload once, got {other:?}"),
    }
    assert!(conn.process_packet(seg, true).is_none());
}

#[test]
fn close_after_third_ack() {
    let mut conn = TCPConnection::new();
    assert!(conn.process_packet(tcp_segment(0, TCP_FLAG_SYN, &[]), true).is_none());
    match conn.process_packet(tcp_segment(1, TCP_FLAG_PSH, b"x"), true) {
        Some(ConnectionState::Data(d, true)) => assert_eq!(d.as_slice(), b"x"),
        other => panic!("expected one message, got {other:?}"),
    }
    assert!(conn.process_packet(tcp_segment(2, TCP_FLAG_FIN, &[]), false).is_none());
    assert!(conn.process_packet(tcp_segment(2, TCP_FLAG_ACK, &[]), true).is_none());
    assert!(conn.process_packet(tcp_segment(2, TCP_FLAG_ACK, &[]), false).is_none());
    match conn.process_packet(tcp_segment(2, TCP_FLAG_ACK, &[]), true) {
        Some(ConnectionState::Closed) => {},
        other => panic!("expected the closed signal, got {other:?}"),
    }
}

#[test]
fn splitter_joins_partial_pushes() {
    let mut splitter = FrameSplitter::new();
    assert!(splitter.push_data(vec![0x03, 0x01]).unwrap().is_none());
    let frame = splitter.push_data(vec![0x02, 0x03]).unwrap().expect("frame complete");
    assert_eq!(frame, vec![0x01, 0x02, 0x03]);
}

#[test]
fn splitter_empty_frame() {
    let mut splitter = FrameSplitter::new();
    let frame = splitter.push_data(vec![0x00]).unwrap().expect("an empty frame");
    assert!(frame.is_empty());
}

#[test]
fn clientbound_while_handshaking_is_illegal() {
    let mut listener = MinecraftListener::new(SERVER, CLIENT);
    let r = listener.parse_packet(&[0x00], false);
    assert!(matches!(r, Err(DatatypeError::IllegalDirection)));
    assert_eq!(listener.state, State::Handshaking);
}

#[test]
fn handshake_with_unknown_state_fails() {
    let mut listener = MinecraftListener::new(SERVER, CLIENT);
    // id 0, protocol version 0, empty address, port 0, next state 9
    let body = [0x00, 0x00, 0x00, 0x00, 0x00, 0x09];
    let r = listener.parse_packet(&body, true);
    assert!(matches!(r, Err(DatatypeError::UnknownState(9))));
    assert_eq!(listener.state, State::Handshaking);
}

#[test]
fn unknown_identifier_keeps_payload() {
    let mut listener = MinecraftListener::new(SERVER, CLIENT);
    listener.state = State::Login;
    let body = [0x15, 0xDE, 0xAD, 0xBE, 0xEF];
    let packet = listener.parse_packet(&body, true).unwrap();
    match packet {
        Packet::Unknown(u) => {
            assert_eq!(u.packet_id, 0x15);
            assert!(u.server_bounded);
            assert_eq!(u.payload, vec![0xDE, 0xAD, 0xBE, 0xEF]);
        },
        other => panic!("expected the unrecognized outcome, got {other:?}"),
    }
    assert_eq!(listener.state, State::Login);
}

fn zlib_compress(data: &[u8]) -> Vec<u8> {
    let mut encoder =
        flate2::bufread::ZlibEncoder::new(data, flate2::Compression::default());
    let mut out = Vec::new();
    encoder.read_to_end(&mut out).unwrap();
    out
}

fn compressed_listener() -> MinecraftListener {
    let mut listener = MinecraftListener::new(SERVER, CLIENT);
    listener.state = State::Login;
    // client-bound id 3: set compression, threshold 0
    let packet = listener.parse_packet(&[0x03, 0x00], false).unwrap();
    assert!(matches!(packet, Packet::SetCompression(_)));
    assert!(listener.compression);
    listener
}

#[test]
fn set_compression_enables_compression() {
    let listener = compressed_listener();
    assert!(listener.compression);
    // a negative threshold leaves compression off
    let mut other = MinecraftListener::new(SERVER, CLIENT);
    other.state = State::Login;
    // threshold -1 as a variable-length integer
    let mut frame = vec![0x03];
    frame.extend(encode_varint(u32::MAX));
    other.parse_packet(&frame, false).unwrap();
    assert!(!other.compression);
}

#[test]
fn compressed_frame_round_trips() {
    let mut listener = compressed_listener();
    let body = [0x15, 0xDE, 0xAD, 0xBE, 0xEF];
    let mut frame = encode_varint(body.len() as u32);
    frame.extend(zlib_compress(&body));
    let packet = listener.parse_packet(&frame, true).unwrap();
    match packet {
        Packet::Unknown(u) => {
            assert_eq!(u.packet_id, 0x15);
            assert_eq!(u.payload, vec![0xDE, 0xAD, 0xBE, 0xEF]);
        },
        other => panic!("expected the unrecognized outcome, got {other:?}"),
    }
}

#[test]
fn uncompressed_zero_passes_through() {
    let mut listener = compressed_listener();
    let frame = [0x00, 0x15, 0xAB];
    let packet = listener.parse_packet(&frame, true).unwrap();
    match packet {
        Packet::Unknown(u) => {
            assert_eq!(u.packet_id, 0x15);
            assert_eq!(u.payload, vec![0xAB]);
        },
        other => panic!("expected the unrecognized outcome, got {other:?}"),
    }
}

#[test]
fn compressed_length_mismatch_fails() {
    let mut listener = compressed_listener();
    let body = [0x15, 0xDE, 0xAD];
    let mut frame = encode_varint(9);
    frame.extend(zlib_compress(&body));
    let r = listener.parse_packet(&frame, true);
    assert!(matches!(r, Err(DatatypeError::Invalid)));
}

#[test]
fn corrupt_zlib_stream_fails() {
    let mut listener = compressed_listener();
    let frame = [0x03, 0x00, 0x11, 0x22, 0x33];
    let r = listener.parse_packet(&frame, true);
    assert!(matches!(r, Err(DatatypeError::Invalid)));
}

#[test]
fn status_packets_decode() {
    let mut listener = MinecraftListener::new(SERVER, CLIENT);
    listener.state = State::Status;
    assert!(matches!(listener.parse_packet(&[0x00], true).unwrap(), Packet::StatusRequest(_)));
    let mut ping = vec![0x01];
    ping.extend_from_slice(&123456789i64.to_be_bytes());
    match listener.parse_packet(&ping, true).unwrap() {
        Packet::PingRequest(p) => assert_eq!(p.timestamp, 123456789),
        other => panic!("expected a ping, got {other:?}"),
    }
    let mut pong = vec![0x01];
    pong.extend_from_slice(&(-7i64).to_be_bytes());
    match listener.parse_packet(&pong, false).unwrap() {
        Packet::PongResponse(p) => assert_eq!(p.timestamp, -7),
        other => panic!("expected a pong, got {other:?}"),
    }
    let mut status = vec![0x00];
    status.extend(string_field("{\"motd\":\"hi\"}"));
    match listener.parse_packet(&status, false).unwrap() {
        Packet::StatusResponse(p) => assert_eq!(p.json_response, "{\"motd\":\"hi\"}"),
        other => panic!("expected a status response, got {other:?}"),
    }
}

#[test]
fn login_success_with_properties() {
    let mut listener = MinecraftListener::new(SERVER, CLIENT);
    listener.state = State::Login;
    let mut body = vec![0x02];
    body.extend_from_slice(&[0x11; 16]);
    body.extend(string_field("steve"));
    body.extend(encode_varint(1));
    body.extend(string_field("textures"));
    body.extend(string_field("payload"));
    body.push(0x01);
    body.extend(string_field("sig"));
    match listener.parse_packet(&body, false).unwrap() {
        Packet::LoginSuccess(p) => {
            assert_eq!(p.uuid.bytes, vec![0x11; 16]);
            assert_eq!(p.username, "steve");
            assert_eq!(p.property.len(), 1);
            assert_eq!(p.property[0].name, "textures");
            assert_eq!(p.property[0].value, "payload");
            assert_eq!(p.property[0].signature.as_deref(), Some("sig"));
        },
        other => panic!("expected a login success, got {other:?}"),
    }
}

#[test]
fn login_start_decodes() {
    let mut listener = MinecraftListener::new(SERVER, CLIENT);
    listener.state = State::Login;
    let mut body = vec![0x00];
    body.extend(string_field("alex"));
    body.extend_from_slice(&[0x42; 16]);
    match listener.parse_packet(&body, true).unwrap() {
        Packet::LoginStart(p) => {
            assert_eq!(p.name, "alex");
            assert_eq!(p.uuid.bytes, vec![0x42; 16]);
        },
        other => panic!("expected a login start, got {other:?}"),
    }
}

#[test]
fn client_information_decodes() {
    let mut listener = MinecraftListener::new(SERVER, CLIENT);
    listener.state = State::Configuration;
    let mut body = vec![0x00];
    body.extend(string_field("en_US"));
    body.push(10); // view distance
    body.push(0x01); // chat mode
    body.push(0x01); // chat colors
    body.push(0x7F); // skin parts
    body.push(0x00); // main hand
    body.push(0x00); // text filtering
    body.push(0x01); // server listings
    body.push(0x02); // particle status
    match listener.parse_packet(&body, true).unwrap() {
        Packet::ClientInformation(p) => {
            assert_eq!(p.locale, "en_US");
            assert_eq!(p.view_distance, 10);
            assert_eq!(p.chat_mode.value, 1);
            assert!(p.chat_colors);
            assert_eq!(p.displayed_skin_parts, 0x7F);
            assert_eq!(p.main_hand.value, 0);
            assert!(!p.enable_text_filtering);
            assert!(p.allow_server_listings);
            assert_eq!(p.particle_status.value, 2);
        },
        other => panic!("expected client information, got {other:?}"),
    }
}

#[test]
fn plugin_message_and_known_packs() {
    let mut listener = MinecraftListener::new(SERVER, CLIENT);
    listener.state = State::Configuration;
    let mut body = vec![0x02];
    body.extend(string_field("minecraft:brand"));
    body.extend_from_slice(b"vanilla");
    match listener.parse_packet(&body, true).unwrap() {
        Packet::ServerboundPluginMessage(p) => {
            assert_eq!(p.channel.namespace, "minecraft");
            assert_eq!(p.channel.value, "brand");
            assert_eq!(p.data, b"vanilla".to_vec());
        },
        other => panic!("expected a plugin message, got {other:?}"),
    }
    let mut packs = vec![0x07];
    packs.extend(encode_varint(1));
    packs.extend(string_field("minecraft"));
    packs.extend(string_field("core"));
    packs.extend(string_field("1.21"));
    match listener.parse_packet(&packs, true).unwrap() {
        Packet::ServerboundKnownPacks(p) => {
            assert_eq!(p.known_packs.len(), 1);
            assert_eq!(p.known_packs[0].namespace, "minecraft");
            assert_eq!(p.known_packs[0].id, "core");
            assert_eq!(p.known_packs[0].version, "1.21");
        },
        other => panic!("expected known packs, got {other:?}"),
    }
    let mut flags = vec![0x0C];
    flags.extend(encode_varint(1));
    flags.extend(string_field("minecraft:vanilla"));
    match listener.parse_packet(&flags, false).unwrap() {
        Packet::FeatureFlags(p) => {
            assert_eq!(p.feature_flags.len(), 1);
            assert_eq!(p.feature_flags[0].namespace, "minecraft");
            assert_eq!(p.feature_flags[0].value, "vanilla");
        },
        other => panic!("expected feature flags, got {other:?}"),
    }
    let mut cb = vec![0x01];
    cb.extend(string_field("minecraft:brand"));
    cb.extend_from_slice(b"paper");
    match listener.parse_packet(&cb, false).unwrap() {
        Packet::ClientboundPluginMessage(p) => {
            assert_eq!(p.channel.namespace, "minecraft");
            assert_eq!(p.data, b"paper".to_vec());
        },
        other => panic!("expected a plugin message, got {other:?}"),
    }
}
