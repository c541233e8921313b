use crate::parser::ether_ip::IpAddress;
use crate::protocol::packets::configuration::{
    ClientInformation, ClientboundKnownPacks, ClientboundPluginMessage, FeatureFlags,
    ServerboundKnownPacks, ServerboundPluginMessage,
};
use crate::protocol::packets::handshaking::Handshake;
use crate::protocol::packets::login::{
    LoginAcknowledged, LoginStart, LoginSuccess, SetCompression,
};
use crate::protocol::packets::status::{
    PingRequest, PongResponse, StatusRequest, StatusResponse,
};
use crate::protocol::packets::unknown::{Unknown, UnknownModel};
use crate::protocol::packets::{Packet, PacketModel};
use crate::protocol::types::error::DatatypeError;
use crate::protocol::types::reader::Reader;
use crate::protocol::types::state::State;
use crate::protocol::types::var_num::{spec_varint, VarInt};
use std::io::Read;
use vstd::prelude::*;

verus! {

/// What inflating a zlib stream yields, where it is well formed; the result
/// depends on the bytes alone.
pub uninterp spec fn zlib_inflate(s: Seq<u8>) -> Option<Seq<u8>>;

/// Relies on `flate2::bufread::ZlibDecoder` (`new`, then
/// `std::io::Read::read_to_end`): inflating a byte slice is a function of
/// those bytes alone, succeeding exactly on well-formed zlib streams.
#[verifier::external_body]
fn zlib_decompress(data: &[u8]) -> (r: Result<Vec<u8>, DatatypeError>)
    ensures
        match r {
            Ok(v) => zlib_inflate(data@) == Some(v@),
            Err(e) => zlib_inflate(data@) is None && e == DatatypeError::Invalid,
        },
{
    let mut decoder = flate2::bufread::ZlibDecoder::new(data);
    let mut output = Vec::new();
    match decoder.read_to_end(&mut output) {
        Ok(_) => Ok(output),
        Err(_) => Err(DatatypeError::Invalid),
    }
}

/// The body a frame presents to the identifier decoder. Without
/// compression it is the frame itself. With compression the frame opens
/// with a declared uncompressed length: zero means the rest is the body as
/// it stands; anything else means the rest is a zlib stream whose inflation
/// must be exactly that long, and `Invalid` where it is corrupt or its
/// length disagrees.
pub open spec fn spec_frame_body(compression: bool, s: Seq<u8>) -> Result<Seq<u8>, DatatypeError> {
    if !compression {
        Ok(s)
    } else {
        match spec_varint(s) {
            Ok((dl, c)) => if dl == 0 {
                Ok(s.skip(c))
            } else {
                match zlib_inflate(s.skip(c)) {
                    Some(out) => if out.len() == (dl as usize) as int {
                        Ok(out)
                    } else {
                        Err(DatatypeError::Invalid)
                    },
                    None => Err(DatatypeError::Invalid),
                }
            },
            Err(e) => Err(e),
        }
    }
}

/// The unrecognized outcome: the identifier, direction and body bytes are
/// kept unchanged, and the session is left as it was.
pub open spec fn spec_unknown(
    state: State,
    compression: bool,
    server_bounded: bool,
    pid: i32,
    rest: Seq<u8>,
) -> Result<(PacketModel, State, bool), DatatypeError> {
    Ok(
        (
            PacketModel::Unknown(
                UnknownModel { packet_id: pid, server_bounded, payload: rest },
            ),
            state,
            compression,
        ),
    )
}

/// The dispatch table: what decoding a body under a direction, state and
/// identifier yields, and the session state and compression flag after it.
/// A handshake moves the session to its declared next state; a
/// login-acknowledged moves it to `Configuration`; a set-compression turns
/// compression on exactly when its threshold is not negative; every triple
/// outside the table yields the unrecognized outcome unchanged; and a
/// client-bound packet while handshaking is `IllegalDirection`.
pub open spec fn spec_dispatch(
    state: State,
    compression: bool,
    server_bounded: bool,
    pid: i32,
    rest: Seq<u8>,
) -> Result<(PacketModel, State, bool), DatatypeError> {
    if server_bounded {
        match state {
            State::Handshaking => if pid == 0 {
                match crate::protocol::packets::handshaking::spec_read_handshake(rest) {
                    Ok((h, _c)) => Ok((PacketModel::Handshake(h), h.next_state, compression)),
                    Err(e) => Err(e),
                }
            } else {
                spec_unknown(state, compression, server_bounded, pid, rest)
            },
            State::Status => if pid == 0 {
                Ok((PacketModel::StatusRequest, state, compression))
            } else if pid == 1 {
                match crate::protocol::packets::status::spec_read_ping_request(rest) {
                    Ok((p, _c)) => Ok((PacketModel::PingRequest(p), state, compression)),
                    Err(e) => Err(e),
                }
            } else {
                spec_unknown(state, compression, server_bounded, pid, rest)
            },
            State::Login => if pid == 0 {
                match crate::protocol::packets::login::spec_read_login_start(rest) {
                    Ok((p, _c)) => Ok((PacketModel::LoginStart(p), state, compression)),
                    Err(e) => Err(e),
                }
            } else if pid == 3 {
                Ok((PacketModel::LoginAcknowledged, State::Configuration, compression))
            } else {
                spec_unknown(state, compression, server_bounded, pid, rest)
            },
            State::Transfer => spec_unknown(state, compression, server_bounded, pid, rest),
            State::Configuration => if pid == 0 {
                match crate::protocol::packets::configuration::spec_read_client_information(rest) {
                    Ok((p, _c)) => Ok((PacketModel::ClientInformation(p), state, compression)),
                    Err(e) => Err(e),
                }
            } else if pid == 2 {
                match crate::protocol::packets::configuration::spec_read_plugin_message(rest) {
                    Ok((p, _c)) => Ok(
                        (PacketModel::ServerboundPluginMessage(p), state, compression),
                    ),
                    Err(e) => Err(e),
                }
            } else if pid == 7 {
                match crate::protocol::packets::configuration::spec_read_known_packs(rest) {
                    Ok((p, _c)) => Ok(
                        (
                            PacketModel::ServerboundKnownPacks(
                                crate::protocol::packets::configuration::ServerboundKnownPacksModel {
                                    known_packs: p,
                                },
                            ),
                            state,
                            compression,
                        ),
                    ),
                    Err(e) => Err(e),
                }
            } else {
                spec_unknown(state, compression, server_bounded, pid, rest)
            },
        }
    } else {
        match state {
            State::Handshaking => Err(DatatypeError::IllegalDirection),
            State::Status => if pid == 0 {
                match crate::protocol::packets::status::spec_read_status_response(rest) {
                    Ok((p, _c)) => Ok((PacketModel::StatusResponse(p), state, compression)),
                    Err(e) => Err(e),
                }
            } else if pid == 1 {
                match crate::protocol::packets::status::spec_read_pong_response(rest) {
                    Ok((p, _c)) => Ok((PacketModel::PongResponse(p), state, compression)),
                    Err(e) => Err(e),
                }
            } else {
                spec_unknown(state, compression, server_bounded, pid, rest)
            },
            State::Login => if pid == 2 {
                match crate::protocol::packets::login::spec_read_login_success(rest) {
                    Ok((p, _c)) => Ok((PacketModel::LoginSuccess(p), state, compression)),
                    Err(e) => Err(e),
                }
            } else if pid == 3 {
                match crate::protocol::packets::login::spec_read_set_compression(rest) {
                    Ok((p, _c)) => Ok(
                        (PacketModel::SetCompression(p), state, p.threshold.value >= 0),
                    ),
                    Err(e) => Err(e),
                }
            } else {
                spec_unknown(state, compression, server_bounded, pid, rest)
            },
            State::Transfer => spec_unknown(state, compression, server_bounded, pid, rest),
            State::Configuration => if pid == 1 {
                match crate::protocol::packets::configuration::spec_read_plugin_message(rest) {
                    Ok((p, _c)) => Ok(
                        (
                            PacketModel::ClientboundPluginMessage(
                                crate::protocol::packets::configuration::ClientboundPluginMessageModel {
                                    channel: p.channel,
                                    data: p.data,
                                },
                            ),
                            state,
                            compression,
                        ),
                    ),
                    Err(e) => Err(e),
                }
            } else if pid == 12 {
                match crate::protocol::packets::configuration::spec_read_feature_flags(rest) {
                    Ok((p, _c)) => Ok((PacketModel::FeatureFlags(p), state, compression)),
                    Err(e) => Err(e),
                }
            } else if pid == 14 {
                match crate::protocol::packets::configuration::spec_read_known_packs(rest) {
                    Ok((p, _c)) => Ok(
                        (
                            PacketModel::ClientboundKnownPacks(
                                crate::protocol::packets::configuration::ClientboundKnownPacksModel {
                                    known_packs: p,
                                },
                            ),
                            state,
                            compression,
                        ),
                    ),
                    Err(e) => Err(e),
                }
            } else {
                spec_unknown(state, compression, server_bounded, pid, rest)
            },
        }
    }
}

/// What parsing one frame yields, and the session after it: the frame body
/// is recovered as [`spec_frame_body`] describes, its identifier read, and
/// the remainder dispatched through [`spec_dispatch`].
pub open spec fn spec_parse_packet(
    state: State,
    compression: bool,
    server_bounded: bool,
    s: Seq<u8>,
) -> Result<(PacketModel, State, bool), DatatypeError> {
    match spec_frame_body(compression, s) {
        Ok(body) => match spec_varint(body) {
            Ok((pid, c)) => spec_dispatch(state, compression, server_bounded, pid, body.skip(c)),
            Err(e) => Err(e),
        },
        Err(e) => Err(e),
    }
}

/// Whether the dispatch table maps this direction, state and identifier to
/// a known packet layout.
pub open spec fn spec_known_id(state: State, server_bounded: bool, pid: i32) -> bool {
    if server_bounded {
        match state {
            State::Handshaking => pid == 0,
            State::Status => pid == 0 || pid == 1,
            State::Login => pid == 0 || pid == 3,
            State::Transfer => false,
            State::Configuration => pid == 0 || pid == 2 || pid == 7,
        }
    } else {
        match state {
            State::Handshaking => false,
            State::Status => pid == 0 || pid == 1,
            State::Login => pid == 2 || pid == 3,
            State::Transfer => false,
            State::Configuration => pid == 1 || pid == 12 || pid == 14,
        }
    }
}

/// An identifier outside the dispatch table, anywhere a direction is legal,
/// decodes to the unrecognized outcome: the raw identifier, the direction,
/// and the body bytes unchanged, with the session left as it was.
pub proof fn lemma_unrecognized_keeps_payload(
    state: State,
    compression: bool,
    server_bounded: bool,
    pid: i32,
    rest: Seq<u8>,
)
    requires
        !spec_known_id(state, server_bounded, pid),
        !(state == State::Handshaking && !server_bounded),
    ensures
        spec_dispatch(state, compression, server_bounded, pid, rest) == Ok::<
            (PacketModel, State, bool),
            DatatypeError,
        >(
            (
                PacketModel::Unknown(
                    UnknownModel { packet_id: pid, server_bounded, payload: rest },
                ),
                state,
                compression,
            ),
        ),
{
}

/// A frame whose declared uncompressed length is zero passes its body
/// through unchanged.
pub proof fn lemma_compression_zero_passthrough(rest: Seq<u8>)
    ensures
        spec_frame_body(
            true,
            crate::protocol::types::var_num::spec_varint_enc(0) + rest,
        ) == Ok::<Seq<u8>, DatatypeError>(rest),
{
    crate::protocol::types::var_num::lemma_varint_round_trip(0, rest);
    let enc = crate::protocol::types::var_num::spec_varint_enc(0);
    assert(enc.len() == 1);
    assert((enc + rest).skip(1) =~= rest);
}

/// A frame with a nonzero declared uncompressed length inflates its body:
/// it decodes to the inflation exactly when the inflation exists and is as
/// long as declared, and is `Invalid` otherwise — in particular, a
/// mismatched declared length fails.
pub proof fn lemma_compression_declared_length(v: i32, rest: Seq<u8>)
    requires
        v != 0,
    ensures
        ({
            let frame = crate::protocol::types::var_num::spec_varint_enc((v as u32) as nat) + rest;
            spec_frame_body(true, frame) == (match zlib_inflate(rest) {
                Some(out) => if out.len() == (v as usize) as int {
                    Ok::<Seq<u8>, DatatypeError>(out)
                } else {
                    Err::<Seq<u8>, DatatypeError>(DatatypeError::Invalid)
                },
                None => Err::<Seq<u8>, DatatypeError>(DatatypeError::Invalid),
            })
        }),
{
    crate::protocol::types::var_num::lemma_varint_round_trip(v as u32, rest);
    let enc = crate::protocol::types::var_num::spec_varint_enc((v as u32) as nat);
    assert((v as u32) as i32 == v) by (bit_vector);
    assert((enc + rest).skip(enc.len() as int) =~= rest);
}

/// The per-connection decoder: the session state, the compression flag, and
/// the two addresses of the watched connection.
pub struct MinecraftListener {
    pub state: State,
    pub compression: bool,
    pub server_ip: IpAddress,
    pub client_ip: IpAddress,
}

impl MinecraftListener {
    /// A fresh session: handshaking, with compression off.
    pub fn new(server_ip: IpAddress, client_ip: IpAddress) -> (r: MinecraftListener)
        ensures
            r.state == State::Handshaking,
            r.compression == false,
            r.server_ip == server_ip,
            r.client_ip == client_ip,
    {
        MinecraftListener { state: State::Handshaking, compression: false, server_ip, client_ip }
    }

    /// Decode one frame and apply its session effects, exactly as
    /// [`spec_parse_packet`] describes: the returned packet, the new state
    /// and the new compression flag are those of the table, and on error
    /// the session is unchanged.
    pub fn parse_packet(&mut self, bytes: &[u8], server_bounded: bool) -> (res: Result<
        Packet,
        DatatypeError,
    >)
        ensures
            final(self).server_ip == old(self).server_ip,
            final(self).client_ip == old(self).client_ip,
            ({
                let sp = spec_parse_packet(
                    old(self).state,
                    old(self).compression,
                    server_bounded,
                    bytes@,
                );
                match res {
                    Ok(p) => sp is Ok && p@ == sp->Ok_0.0 && final(self).state == sp->Ok_0.1
                        && final(self).compression == sp->Ok_0.2,
                    Err(e) => sp is Err && e == sp->Err_0 && *final(self) == *old(self),
                }
            }),
    {
        let ghost s0 = bytes@;
        let mut reader = Reader::new(crate::parser::bytes_range(bytes, 0, bytes.len()));
        proof {
            assert(s0.subrange(0, s0.len() as int) =~= s0);
        }
        if self.compression {
            let dl = match VarInt::from_bytes(&mut reader) {
                Ok(v) => v,
                Err(e) => {
                    return Err(e);
                },
            };
            if dl.value != 0 {
                let compressed = reader.read_rest();
                let out = match zlib_decompress(compressed.as_slice()) {
                    Ok(v) => v,
                    Err(e) => {
                        return Err(e);
                    },
                };
                let n = #[verifier::truncate] (dl.value as usize);
                if out.len() != n {
                    return Err(DatatypeError::Invalid);
                }
                reader = Reader::new(out);
            }
        }
        let ghost body = spec_frame_body(old(self).compression, s0)->Ok_0;
        proof {
            assert(reader.rest() == body);
        }
        let pid = match VarInt::from_bytes(&mut reader) {
            Ok(v) => v,
            Err(e) => {
                return Err(e);
            },
        };
        let r = &mut reader;
        if server_bounded {
            match self.state {
                State::Handshaking => {
                    if pid.value == 0 {
                        match Handshake::from_bytes(r) {
                            Ok(packet) => {
                                self.state = packet.next_state;
                                Ok(Packet::Handshake(packet))
                            },
                            Err(e) => Err(e),
                        }
                    } else {
                        Ok(Packet::Unknown(Self::unknown_packet(r, pid.value, server_bounded)))
                    }
                },
                State::Status => {
                    if pid.value == 0 {
                        match StatusRequest::from_bytes(r) {
                            Ok(packet) => Ok(Packet::StatusRequest(packet)),
                            Err(e) => Err(e),
                        }
                    } else if pid.value == 1 {
                        match PingRequest::from_bytes(r) {
                            Ok(packet) => Ok(Packet::PingRequest(packet)),
                            Err(e) => Err(e),
                        }
                    } else {
                        Ok(Packet::Unknown(Self::unknown_packet(r, pid.value, server_bounded)))
                    }
                },
                State::Login => {
                    if pid.value == 0 {
                        match LoginStart::from_bytes(r) {
                            Ok(packet) => Ok(Packet::LoginStart(packet)),
                            Err(e) => Err(e),
                        }
                    } else if pid.value == 3 {
                        self.state = State::Configuration;
                        match LoginAcknowledged::from_bytes(r) {
                            Ok(packet) => Ok(Packet::LoginAcknowledged(packet)),
                            Err(e) => Err(e),
                        }
                    } else {
                        Ok(Packet::Unknown(Self::unknown_packet(r, pid.value, server_bounded)))
                    }
                },
                State::Transfer => Ok(
                    Packet::Unknown(Self::unknown_packet(r, pid.value, server_bounded)),
                ),
                State::Configuration => {
                    if pid.value == 0 {
                        match ClientInformation::from_bytes(r) {
                            Ok(packet) => Ok(Packet::ClientInformation(packet)),
                            Err(e) => Err(e),
                        }
                    } else if pid.value == 2 {
                        match ServerboundPluginMessage::from_bytes(r) {
                            Ok(packet) => Ok(Packet::ServerboundPluginMessage(packet)),
                            Err(e) => Err(e),
                        }
                    } else if pid.value == 7 {
                        match ServerboundKnownPacks::from_bytes(r) {
                            Ok(packet) => Ok(Packet::ServerboundKnownPacks(packet)),
                            Err(e) => Err(e),
                        }
                    } else {
                        Ok(Packet::Unknown(Self::unknown_packet(r, pid.value, server_bounded)))
                    }
                },
            }
        } else {
            match self.state {
                State::Handshaking => Err(DatatypeError::IllegalDirection),
                State::Status => {
                    if pid.value == 0 {
                        match StatusResponse::from_bytes(r) {
                            Ok(packet) => Ok(Packet::StatusResponse(packet)),
                            Err(e) => Err(e),
                        }
                    } else if pid.value == 1 {
                        match PongResponse::from_bytes(r) {
                            Ok(packet) => Ok(Packet::PongResponse(packet)),
                            Err(e) => Err(e),
                        }
                    } else {
                        Ok(Packet::Unknown(Self::unknown_packet(r, pid.value, server_bounded)))
                    }
                },
                State::Login => {
                    if pid.value == 2 {
                        match LoginSuccess::from_bytes(r) {
                            Ok(packet) => Ok(Packet::LoginSuccess(packet)),
                            Err(e) => Err(e),
                        }
                    } else if pid.value == 3 {
                        match SetCompression::from_bytes(r) {
                            Ok(packet) => {
                                self.compression = packet.threshold.value >= 0;
                                Ok(Packet::SetCompression(packet))
                            },
                            Err(e) => Err(e),
                        }
                    } else {
                        Ok(Packet::Unknown(Self::unknown_packet(r, pid.value, server_bounded)))
                    }
                },
                State::Transfer => Ok(
                    Packet::Unknown(Self::unknown_packet(r, pid.value, server_bounded)),
                ),
                State::Configuration => {
                    if pid.value == 1 {
                        match ClientboundPluginMessage::from_bytes(r) {
                            Ok(packet) => Ok(Packet::ClientboundPluginMessage(packet)),
                            Err(e) => Err(e),
                        }
                    } else if pid.value == 12 {
                        match FeatureFlags::from_bytes(r) {
                            Ok(packet) => Ok(Packet::FeatureFlags(packet)),
                            Err(e) => Err(e),
                        }
                    } else if pid.value == 14 {
                        match ClientboundKnownPacks::from_bytes(r) {
                            Ok(packet) => Ok(Packet::ClientboundKnownPacks(packet)),
                            Err(e) => Err(e),
                        }
                    } else {
                        Ok(Packet::Unknown(Self::unknown_packet(r, pid.value, server_bounded)))
                    }
                },
            }
        }
    }

    /// Wrap the remaining body as the unrecognized outcome for `pid`.
    fn unknown_packet(r: &mut Reader, pid: i32, server_bounded: bool) -> (res: Unknown)
        requires
            old(r).wf(),
        ensures
            final(r).wf(),
            res@ == (UnknownModel { packet_id: pid, server_bounded, payload: old(r).rest() }),
    {
        let mut packet = match Unknown::from_bytes(r) {
            Ok(p) => p,
            Err(_) => Unknown { packet_id: 0, server_bounded: false, payload: Vec::new() },
        };
        packet.packet_id = pid;
        packet.server_bounded = server_bounded;
        packet
    }
}

} // verus!
