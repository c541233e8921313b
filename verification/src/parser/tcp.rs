use crate::parser::error::PacketError;
use crate::parser::{be16_at, be32_at, bytes_range, lemma_spec_be_bound, spec_be};
use vstd::prelude::*;

verus! {

/// The transport-layer flag bits, kept as the raw 16-bit field masked to the
/// eight known flags.
#[derive(Debug, Clone, Copy, PartialEq, Eq, Structural)]
pub struct TCPFlag {
    pub bits: u16,
}

pub const TCP_FLAG_FIN: u16 = 0x01;

pub const TCP_FLAG_SYN: u16 = 0x02;

pub const TCP_FLAG_RST: u16 = 0x04;

pub const TCP_FLAG_PSH: u16 = 0x08;

pub const TCP_FLAG_ACK: u16 = 0x10;

pub const TCP_FLAG_URG: u16 = 0x20;

pub const TCP_FLAG_ECE: u16 = 0x40;

pub const TCP_FLAG_CWR: u16 = 0x80;

impl TCPFlag {
    /// The mask of all known flag bits.
    pub open spec fn spec_known_mask() -> u16 {
        0xff
    }

    /// Keep only the known flag bits of a raw 16-bit flags field.
    pub fn from_bits_truncate(bits: u16) -> (r: TCPFlag)
        ensures
            r.bits == bits & 0xff,
    {
        TCPFlag { bits: bits & 0xff }
    }

    /// Whether every flag of `other` is set in `self`.
    pub open spec fn spec_contains(self, other: TCPFlag) -> bool {
        self.bits & other.bits == other.bits
    }

    pub fn contains(&self, other: TCPFlag) -> (r: bool)
        ensures
            r == self.spec_contains(other),
    {
        self.bits & other.bits == other.bits
    }

    /// Whether the single flag with mask `bit` is set.
    pub open spec fn spec_has(self, bit: u16) -> bool {
        self.bits & bit == bit
    }

    pub fn has(&self, bit: u16) -> (r: bool)
        ensures
            r == self.spec_has(bit),
    {
        self.bits & bit == bit
    }
}

/// A parsed transport-layer segment.
#[derive(Debug, Clone)]
pub struct TCPPacketInfo {
    pub src_port: u16,
    pub dst_port: u16,
    pub seq_num: u32,
    pub ack_num: u32,
    pub flags: TCPFlag,
    pub window_size: u16,
    pub checksum: u16,
    pub options: Option<Vec<u8>>,
    pub payload: Vec<u8>,
}

/// Mathematical image of a [`TCPPacketInfo`].
pub struct TCPPacketModel {
    pub src_port: u16,
    pub dst_port: u16,
    pub seq_num: u32,
    pub ack_num: u32,
    pub flags: TCPFlag,
    pub window_size: u16,
    pub checksum: u16,
    pub options: Option<Seq<u8>>,
    pub payload: Seq<u8>,
}

impl View for TCPPacketInfo {
    type V = TCPPacketModel;

    open spec fn view(&self) -> TCPPacketModel {
        TCPPacketModel {
            src_port: self.src_port,
            dst_port: self.dst_port,
            seq_num: self.seq_num,
            ack_num: self.ack_num,
            flags: self.flags,
            window_size: self.window_size,
            checksum: self.checksum,
            options: match self.options {
                Some(ref v) => Some(v@),
                None => None,
            },
            payload: self.payload@,
        }
    }
}

/// What parsing a transport-layer segment yields on any input: the header
/// fields for a segment of at least 18 bytes whose declared data offset lies
/// within the input, the option bytes where the offset exceeds the 20-byte
/// fixed header, the payload from the offset onward, and `IncorrectLength`
/// otherwise.
pub open spec fn spec_tcp_from_bytes(s: Seq<u8>) -> Result<TCPPacketModel, PacketError> {
    if s.len() < 18 {
        Err(PacketError::IncorrectLength)
    } else {
        let flags_num = spec_be(s, 12, 2) as u16;
        let data_offset = ((flags_num & 0xf000) >> 12) * 4;
        if data_offset > s.len() {
            Err(PacketError::IncorrectLength)
        } else {
            Ok(
                TCPPacketModel {
                    src_port: spec_be(s, 0, 2) as u16,
                    dst_port: spec_be(s, 2, 2) as u16,
                    seq_num: spec_be(s, 4, 4) as u32,
                    ack_num: spec_be(s, 8, 4) as u32,
                    flags: TCPFlag { bits: flags_num & 0xff },
                    window_size: spec_be(s, 14, 2) as u16,
                    checksum: spec_be(s, 16, 2) as u16,
                    options: if data_offset > 20 {
                        Some(s.subrange(20, data_offset as int))
                    } else {
                        None
                    },
                    payload: s.subrange(data_offset as int, s.len() as int),
                },
            )
        }
    }
}

impl TCPPacketInfo {
    /// Parse a transport-layer segment, exactly as [`spec_tcp_from_bytes`]
    /// describes.
    pub fn from_bytes(data: &[u8]) -> (r: Result<TCPPacketInfo, PacketError>)
        ensures
            ({
                let s = spec_tcp_from_bytes(data@);
                match r {
                    Ok(p) => s is Ok && p@ == s->Ok_0,
                    Err(e) => s is Err && e == s->Err_0,
                }
            }),
    {
        if data.len() < 18 {
            return Err(PacketError::IncorrectLength);
        }
        let flags_num = be16_at(data, 12);
        proof {
            lemma_spec_be_bound(data@, 0, 2);
            lemma_spec_be_bound(data@, 2, 2);
            lemma_spec_be_bound(data@, 4, 4);
            lemma_spec_be_bound(data@, 8, 4);
            lemma_spec_be_bound(data@, 12, 2);
            lemma_spec_be_bound(data@, 14, 2);
            lemma_spec_be_bound(data@, 16, 2);
            assert(((flags_num & 0xf000) >> 12) * 4 <= 60) by (bit_vector);
        }
        let data_offset: usize = (((flags_num & 0xf000) >> 12) * 4) as usize;
        if data_offset > data.len() {
            return Err(PacketError::IncorrectLength);
        }
        let options = if data_offset > 20 {
            Some(bytes_range(data, 20, data_offset))
        } else {
            None
        };
        Ok(
            TCPPacketInfo {
                src_port: be16_at(data, 0),
                dst_port: be16_at(data, 2),
                seq_num: be32_at(data, 4),
                ack_num: be32_at(data, 8),
                flags: TCPFlag::from_bits_truncate(flags_num),
                window_size: be16_at(data, 14),
                checksum: be16_at(data, 16),
                options,
                payload: bytes_range(data, data_offset, data.len()),
            },
        )
    }
}

} // verus!
