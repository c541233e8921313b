use crate::parser::error::PacketError;
use crate::parser::{be16_at, bytes_range, lemma_spec_be_bound, spec_be};
use vstd::prelude::*;

verus! {

/// A parsed datagram header: ports, checksum, and the trailing payload.
#[derive(Debug, Clone)]
pub struct UDPPacketInfo {
    pub src_port: u16,
    pub dst_port: u16,
    pub checksum: u16,
    pub payload: Vec<u8>,
}

/// Mathematical image of a [`UDPPacketInfo`].
pub struct UDPPacketModel {
    pub src_port: u16,
    pub dst_port: u16,
    pub checksum: u16,
    pub payload: Seq<u8>,
}

impl View for UDPPacketInfo {
    type V = UDPPacketModel;

    open spec fn view(&self) -> UDPPacketModel {
        UDPPacketModel {
            src_port: self.src_port,
            dst_port: self.dst_port,
            checksum: self.checksum,
            payload: self.payload@,
        }
    }
}

/// What parsing a datagram yields on any input: the three header fields and
/// the payload past the 8-byte header, or `IncorrectLength` under 8 bytes.
pub open spec fn spec_udp_from_bytes(s: Seq<u8>) -> Result<UDPPacketModel, PacketError> {
    if s.len() < 8 {
        Err(PacketError::IncorrectLength)
    } else {
        Ok(
            UDPPacketModel {
                src_port: spec_be(s, 0, 2) as u16,
                dst_port: spec_be(s, 2, 2) as u16,
                checksum: spec_be(s, 6, 2) as u16,
                payload: s.subrange(8, s.len() as int),
            },
        )
    }
}

impl UDPPacketInfo {
    /// Parse a datagram, exactly as [`spec_udp_from_bytes`] describes.
    pub fn from_bytes(data: &[u8]) -> (r: Result<UDPPacketInfo, PacketError>)
        ensures
            ({
                let s = spec_udp_from_bytes(data@);
                match r {
                    Ok(p) => s is Ok && p@ == s->Ok_0,
                    Err(e) => s is Err && e == s->Err_0,
                }
            }),
    {
        if data.len() < 8 {
            return Err(PacketError::IncorrectLength);
        }
        proof {
            lemma_spec_be_bound(data@, 0, 2);
            lemma_spec_be_bound(data@, 2, 2);
            lemma_spec_be_bound(data@, 6, 2);
        }
        Ok(
            UDPPacketInfo {
                src_port: be16_at(data, 0),
                dst_port: be16_at(data, 2),
                checksum: be16_at(data, 6),
                payload: bytes_range(data, 8, data.len()),
            },
        )
    }
}

} // verus!
