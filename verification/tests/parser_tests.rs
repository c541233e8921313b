use mcsniff::parser::error::PacketError;
use mcsniff::parser::ether_ip::{IPPacketInfo, IpAddress};
use mcsniff::parser::tcp::{TCPFlag, TCPPacketInfo, TCP_FLAG_ACK, TCP_FLAG_PSH, TCP_FLAG_SYN};
use mcsniff::parser::udp::UDPPacketInfo;
use mcsniff::parser::slice_to_array_unchecked;
use mcsniff::protocol::types::error::DatatypeError;
use mcsniff::protocol::types::reader::Reader;
use mcsniff::protocol::types::var_num::{encode_varint, VarInt};

#[test]
fn tcp_flags_test() {
    let temp = TCPFlag::from_bits_truncate(0x1218);
    println!("{temp:?}");
}

#[test]
fn test() {
    let temp: u16 = ((0x8012 & 0b1111000000000000) >> 12) * 4;
    println!("{temp} {temp:b}");
}

#[test]
fn ether_ip_test() {
    let r = IPPacketInfo::from_bytes(b"123");
    assert!(matches!(r, Err(PacketError::IncorrectLength)));
}

fn ipv4_frame(src: [u8; 4], dst: [u8; 4], protocol: u8, payload: &[u8]) -> Vec<u8> {
    let mut out = vec![0u8; 14];
    out[0..6].copy_from_slice(&[1, 2, 3, 4, 5, 6]);
    out[6..12].copy_from_slice(&[11, 12, 13, 14, 15, 16]);
    out[12] = 0x08;
    out[13] = 0x00;
    let mut ip = vec![0u8; 20];
    ip[0] = 0x45;
    let total: u16 = 20 + payload.len() as u16;
    ip[2] = (total >> 8) as u8;
    ip[3] = (total & 0xff) as u8;
    ip[9] = protocol;
    ip[12..16].copy_from_slice(&src);
    ip[16..20].copy_from_slice(&dst);
    out.extend_from_slice(&ip);
    out.extend_from_slice(payload);
    out
}

#[test]
fn ipv4_parse_exact() {
    let frame = ipv4_frame([192, 168, 1, 2], [10, 0, 0, 7], 6, &[0xAA, 0xBB, 0xCC]);
    let p = IPPacketInfo::from_bytes(&frame).unwrap();
    assert_eq!(p.ether_type, 0x0800);
    assert_eq!(p.payload_protocol, 6);
    assert_eq!(p.src_ip, IpAddress::V4(0xC0A80102));
    assert_eq!(p.dst_ip, IpAddress::V4(0x0A000007));
    assert_eq!(p.dst_mac, vec![1, 2, 3, 4, 5, 6]);
    assert_eq!(p.src_mac, vec![11, 12, 13, 14, 15, 16]);
    assert_eq!(p.payload, vec![0xAA, 0xBB, 0xCC]);
}

#[test]
fn ip_unknown_protocol() {
    let mut frame = ipv4_frame([1, 1, 1, 1], [2, 2, 2, 2], 6, &[]);
    frame[12] = 0x12;
    frame[13] = 0x34;
    let r = IPPacketInfo::from_bytes(&frame);
    assert!(matches!(r, Err(PacketError::UnknownProtocol(0x1234))));
}

#[test]
fn ip_declared_length_too_long() {
    let mut frame = ipv4_frame([1, 1, 1, 1], [2, 2, 2, 2], 6, &[9, 9]);
    // announce more payload than is present
    frame[17] = 200;
    let r = IPPacketInfo::from_bytes(&frame);
    assert!(matches!(r, Err(PacketError::IncorrectLength)));
}

pub fn tcp_segment(seq: u32, flags: u16, payload: &[u8]) -> Vec<u8> {
    let mut out = vec![0u8; 20];
    out[0] = 0xDB;
    out[1] = 0x18;
    out[2] = 0x63;
    out[3] = 0xDD;
    out[4..8].copy_from_slice(&seq.to_be_bytes());
    let offset_and_flags: u16 = (5 << 12) | flags;
    out[12] = (offset_and_flags >> 8) as u8;
    out[13] = (offset_and_flags & 0xff) as u8;
    out[14] = 0x20;
    out[15] = 0x00;
    out.extend_from_slice(payload);
    out
}

#[test]
fn tcp_parse_exact() {
    let seg = tcp_segment(0x01020304, TCP_FLAG_PSH | TCP_FLAG_ACK, &[1, 2, 3]);
    let p = TCPPacketInfo::from_bytes(&seg).unwrap();
    assert_eq!(p.src_port, 0xDB18);
    assert_eq!(p.dst_port, 0x63DD);
    assert_eq!(p.seq_num, 0x01020304);
    assert_eq!(p.ack_num, 0);
    assert!(p.flags.has(TCP_FLAG_PSH));
    assert!(p.flags.has(TCP_FLAG_ACK));
    assert!(!p.flags.has(TCP_FLAG_SYN));
    assert!(p.flags.contains(TCPFlag::from_bits_truncate(TCP_FLAG_PSH | TCP_FLAG_ACK)));
    assert!(!p.flags.contains(TCPFlag::from_bits_truncate(TCP_FLAG_SYN | TCP_FLAG_ACK)));
    assert_eq!(p.window_size, 0x2000);
    assert_eq!(p.options, None);
    assert_eq!(p.payload, vec![1, 2, 3]);
}

#[test]
fn tcp_too_short() {
    let r = TCPPacketInfo::from_bytes(&[0u8; 17]);
    assert!(matches!(r, Err(PacketError::IncorrectLength)));
}

#[test]
fn tcp_offset_beyond_input() {
    // data offset 15 words = 60 bytes, but only 20 bytes present
    let mut seg = tcp_segment(1, 0, &[]);
    seg[12] = 0xF0;
    let r = TCPPacketInfo::from_bytes(&seg);
    assert!(matches!(r, Err(PacketError::IncorrectLength)));
}

#[test]
fn udp_parse_exact() {
    let data = [0x00, 0x35, 0xDB, 0x18, 0x00, 0x0C, 0xFE, 0xDC, 0x41, 0x42];
    let p = UDPPacketInfo::from_bytes(&data).unwrap();
    assert_eq!(p.src_port, 53);
    assert_eq!(p.dst_port, 0xDB18);
    assert_eq!(p.checksum, 0xFEDC);
    assert_eq!(p.payload, vec![0x41, 0x42]);
}

#[test]
fn slice_to_array_copies() {
    let arr: [u8; 4] = slice_to_array_unchecked(&[9, 8, 7, 6]);
    assert_eq!(arr, [9, 8, 7, 6]);
}

fn decode_varint(bytes: &[u8]) -> Result<(i32, usize), DatatypeError> {
    let mut r = Reader::new(bytes.to_vec());
    let v = VarInt::from_bytes(&mut r)?;
    Ok((v.value, r.pos))
}

#[test]
fn varint_round_trip_samples() {
    let samples: [u32; 10] =
        [0, 1, 127, 128, 255, 300, 25565, 2097151, 2147483647, 4294967295];
    for n in samples {
        let enc = encode_varint(n);
        assert!(enc.len() <= 5);
        let (v, used) = decode_varint(&enc).unwrap();
        assert_eq!(v as u32, n);
        assert_eq!(used, enc.len());
    }
}

#[test]
fn varint_known_encodings() {
    assert_eq!(encode_varint(0), vec![0x00]);
    assert_eq!(encode_varint(255), vec![0xFF, 0x01]);
    assert_eq!(encode_varint(25565), vec![0xDD, 0xC7, 0x01]);
    assert_eq!(encode_varint(4294967295), vec![0xFF, 0xFF, 0xFF, 0xFF, 0x0F]);
    assert_eq!(decode_varint(&[0xFF, 0x01]).unwrap().0, 255);
}

#[test]
fn varint_too_long_fails() {
    let r = decode_varint(&[0x80, 0x80, 0x80, 0x80, 0x80, 0x01]);
    assert!(matches!(r, Err(DatatypeError::TooBig)));
}

#[test]
fn varint_truncated_fails() {
    let r = decode_varint(&[0x80]);
    assert!(matches!(r, Err(DatatypeError::NotEnoughData)));
}
