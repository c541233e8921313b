use crate::parser::error::PacketError;
use crate::parser::{be16_at, be32_at, be_at, bytes_range, lemma_spec_be_bound, spec_be};
use vstd::arithmetic::power::pow;
use vstd::prelude::*;

verus! {

/// A network-layer address, as plain values: a 4-byte address as its
/// big-endian 32-bit value, a 16-byte address as its big-endian 128-bit value.
#[derive(Debug, Copy, Clone, PartialEq, Eq, Hash, Structural)]
pub enum IpAddress {
    V4(u32),
    V6(u128),
}

/// A parsed Ethernet frame carrying an IPv4 or IPv6 packet.
#[derive(Debug, Clone)]
pub struct IPPacketInfo {
    pub src_mac: Vec<u8>,
    pub dst_mac: Vec<u8>,
    pub ether_type: u16,
    pub payload_protocol: u8,
    pub src_ip: IpAddress,
    pub dst_ip: IpAddress,
    pub payload: Vec<u8>,
}

/// Mathematical image of an [`IPPacketInfo`].
pub struct IPPacketModel {
    pub src_mac: Seq<u8>,
    pub dst_mac: Seq<u8>,
    pub ether_type: u16,
    pub payload_protocol: u8,
    pub src_ip: IpAddress,
    pub dst_ip: IpAddress,
    pub payload: Seq<u8>,
}

impl View for IPPacketInfo {
    type V = IPPacketModel;

    open spec fn view(&self) -> IPPacketModel {
        IPPacketModel {
            src_mac: self.src_mac@,
            dst_mac: self.dst_mac@,
            ether_type: self.ether_type,
            payload_protocol: self.payload_protocol,
            src_ip: self.src_ip,
            dst_ip: self.dst_ip,
            payload: self.payload@,
        }
    }
}

/// What parsing an Ethernet+IP header yields on any input: the frame fields
/// for a well-formed IPv4 or IPv6 header, `IncorrectLength` where the bytes
/// run out before a field or before the declared payload length, and
/// `UnknownProtocol` for any other ether-type.
pub open spec fn spec_ip_from_bytes(s: Seq<u8>) -> Result<IPPacketModel, PacketError> {
    if s.len() < 14 {
        Err(PacketError::IncorrectLength)
    } else {
        let ether_type = spec_be(s, 12, 2) as u16;
        if ether_type == 0x0800 {
            spec_ipv4_from_bytes(s)
        } else if ether_type == 0x86DD {
            spec_ipv6_from_bytes(s)
        } else {
            Err(PacketError::UnknownProtocol(ether_type))
        }
    }
}

/// The IPv4 arm of [`spec_ip_from_bytes`]: the declared total length must
/// cover the declared header length, and the payload is the declared number
/// of bytes following the fixed 34-byte Ethernet+IPv4 prefix.
pub open spec fn spec_ipv4_from_bytes(s: Seq<u8>) -> Result<IPPacketModel, PacketError> {
    if s.len() < 18 {
        Err(PacketError::IncorrectLength)
    } else {
        let header_length = ((s[14] & 0x0f) as int) * 4;
        let total_length = spec_be(s, 16, 2);
        if total_length < header_length {
            Err(PacketError::IncorrectLength)
        } else {
            let payload_length = total_length - header_length;
            if s.len() < 34 || 34 + payload_length > s.len() {
                Err(PacketError::IncorrectLength)
            } else {
                Ok(
                    IPPacketModel {
                        dst_mac: s.subrange(0, 6),
                        src_mac: s.subrange(6, 12),
                        ether_type: 0x0800,
                        payload_protocol: s[23],
                        src_ip: IpAddress::V4(spec_be(s, 26, 4) as u32),
                        dst_ip: IpAddress::V4(spec_be(s, 30, 4) as u32),
                        payload: s.subrange(34, 34 + payload_length),
                    },
                )
            }
        }
    }
}

/// The IPv6 arm of [`spec_ip_from_bytes`]: the payload is the declared number
/// of bytes following the fixed 54-byte Ethernet+IPv6 prefix.
pub open spec fn spec_ipv6_from_bytes(s: Seq<u8>) -> Result<IPPacketModel, PacketError> {
    if s.len() < 20 {
        Err(PacketError::IncorrectLength)
    } else {
        let payload_length = spec_be(s, 18, 2);
        if s.len() < 54 || 54 + payload_length > s.len() {
            Err(PacketError::IncorrectLength)
        } else {
            Ok(
                IPPacketModel {
                    dst_mac: s.subrange(0, 6),
                    src_mac: s.subrange(6, 12),
                    ether_type: 0x86DD,
                    payload_protocol: s[20],
                    src_ip: IpAddress::V6(spec_be(s, 22, 16) as u128),
                    dst_ip: IpAddress::V6(spec_be(s, 38, 16) as u128),
                    payload: s.subrange(54, 54 + payload_length),
                },
            )
        }
    }
}

impl IPPacketInfo {
    /// Parse an Ethernet frame and the IPv4 or IPv6 header it carries,
    /// exactly as [`spec_ip_from_bytes`] describes.
    pub fn from_bytes(data: &[u8]) -> (r: Result<IPPacketInfo, PacketError>)
        ensures
            ({
                let s = spec_ip_from_bytes(data@);
                match r {
                    Ok(p) => s is Ok && p@ == s->Ok_0,
                    Err(e) => s is Err && e == s->Err_0,
                }
            }),
    {
        if data.len() < 14 {
            return Err(PacketError::IncorrectLength);
        }
        let ether_type = be16_at(data, 12);
        proof {
            lemma_spec_be_bound(data@, 12, 2);
        }
        if ether_type == 0x0800 {
            Self::ipv4_from_bytes(data)
        } else if ether_type == 0x86DD {
            Self::ipv6_from_bytes(data)
        } else {
            Err(PacketError::UnknownProtocol(ether_type))
        }
    }

    fn ipv4_from_bytes(data: &[u8]) -> (r: Result<IPPacketInfo, PacketError>)
        requires
            data@.len() >= 14,
            spec_be(data@, 12, 2) == 0x0800,
        ensures
            ({
                let s = spec_ipv4_from_bytes(data@);
                match r {
                    Ok(p) => s is Ok && p@ == s->Ok_0,
                    Err(e) => s is Err && e == s->Err_0,
                }
            }),
    {
        if data.len() < 18 {
            return Err(PacketError::IncorrectLength);
        }
        let nibble = data[14] & 0x0f;
        proof {
            let b14 = data@[14];
            assert(b14 & 0x0f <= 0x0f) by (bit_vector);
        }
        let header_length: u16 = (nibble as u16) * 4;
        let total_length = be16_at(data, 16);
        proof {
            lemma_spec_be_bound(data@, 16, 2);
        }
        if total_length < header_length {
            return Err(PacketError::IncorrectLength);
        }
        let payload_length: usize = (total_length - header_length) as usize;
        if data.len() < 34 || payload_length > data.len() - 34 {
            return Err(PacketError::IncorrectLength);
        }
        proof {
            lemma_spec_be_bound(data@, 26, 4);
            lemma_spec_be_bound(data@, 30, 4);
        }
        Ok(
            IPPacketInfo {
                dst_mac: bytes_range(data, 0, 6),
                src_mac: bytes_range(data, 6, 12),
                ether_type: 0x0800,
                payload_protocol: data[23],
                src_ip: IpAddress::V4(be32_at(data, 26)),
                dst_ip: IpAddress::V4(be32_at(data, 30)),
                payload: bytes_range(data, 34, 34 + payload_length),
            },
        )
    }

    fn ipv6_from_bytes(data: &[u8]) -> (r: Result<IPPacketInfo, PacketError>)
        requires
            data@.len() >= 14,
            spec_be(data@, 12, 2) == 0x86DD,
        ensures
            ({
                let s = spec_ipv6_from_bytes(data@);
                match r {
                    Ok(p) => s is Ok && p@ == s->Ok_0,
                    Err(e) => s is Err && e == s->Err_0,
                }
            }),
    {
        if data.len() < 20 {
            return Err(PacketError::IncorrectLength);
        }
        let payload_length: usize = be16_at(data, 18) as usize;
        proof {
            lemma_spec_be_bound(data@, 18, 2);
        }
        if data.len() < 54 || payload_length > data.len() - 54 {
            return Err(PacketError::IncorrectLength);
        }
        proof {
            lemma_spec_be_bound(data@, 22, 16);
            lemma_spec_be_bound(data@, 38, 16);
            reveal_with_fuel(pow, 17);
            assert(pow(256, 16) == 0x100000000000000000000000000000000);
        }
        Ok(
            IPPacketInfo {
                dst_mac: bytes_range(data, 0, 6),
                src_mac: bytes_range(data, 6, 12),
                ether_type: 0x86DD,
                payload_protocol: data[20],
                src_ip: IpAddress::V6(be_at(data, 22, 16)),
                dst_ip: IpAddress::V6(be_at(data, 38, 16)),
                payload: bytes_range(data, 54, 54 + payload_length),
            },
        )
    }
}

} // verus!
