//! Passive reconstruction of a length-prefixed, state-dependent binary
//! protocol from captured TCP traffic.
//!
//! The pipeline runs in four stages: the link/transport parsers in
//! [`parser`] turn raw frame bytes into structured segment records, the
//! reassembler in [`tcp_connection`] orders segments per direction and
//! recovers complete application messages, the splitter in [`sniffer`]
//! cuts those messages into length-prefixed frames, and the decoder in
//! [`protocol`] turns each frame into a typed packet according to the
//! session state and direction.

pub mod parser;
pub mod protocol;
pub mod sniffer;
pub mod tcp_connection;

use crate::parser::ether_ip::{IPPacketInfo, IpAddress};
use vstd::prelude::*;

verus! {

/// Given a parsed frame and the monitored server's address, return the peer
/// (client) address together with whether the frame travels toward the server.
pub fn get_client_ip_from_packet(packet: &IPPacketInfo, server_ip: IpAddress) -> (r: (
    IpAddress,
    bool,
))
    ensures
        packet.src_ip == server_ip ==> r == (packet.dst_ip, false),
        packet.src_ip != server_ip ==> r == (packet.src_ip, true),
{
    if packet.src_ip == server_ip {
        (packet.dst_ip, false)
    } else {
        (packet.src_ip, true)
    }
}

} // verus!
