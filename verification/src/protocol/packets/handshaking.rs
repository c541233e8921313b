use crate::protocol::types::error::DatatypeError;
use crate::protocol::types::reader::Reader;
use crate::protocol::types::state::{spec_state_from_num, State};
use crate::protocol::types::string::{
    lemma_read_string_consumed, read_string, spec_read_string,
};
use crate::protocol::types::var_num::{lemma_varint_consumed, spec_varint, VarInt};
use vstd::prelude::*;

verus! {

/// The opening packet of every session: protocol version, the address and
/// port the client dialled, and the state the session moves to next.
#[derive(Debug, Clone)]
pub struct Handshake {
    pub protocol_version: VarInt,
    pub server_address: String,
    pub server_port: u16,
    pub next_state: State,
}

/// Mathematical image of a [`Handshake`].
pub struct HandshakeModel {
    pub protocol_version: VarInt,
    pub server_address: Seq<char>,
    pub server_port: u16,
    pub next_state: State,
}

impl View for Handshake {
    type V = HandshakeModel;

    open spec fn view(&self) -> HandshakeModel {
        HandshakeModel {
            protocol_version: self.protocol_version,
            server_address: self.server_address@,
            server_port: self.server_port,
            next_state: self.next_state,
        }
    }
}

/// A handshake body: a variable-length protocol version, a string address,
/// a 16-bit port, and a variable-length next-state number, which must name
/// a known state; `UnknownState` carries it where it does not.
pub open spec fn spec_read_handshake(s: Seq<u8>) -> Result<(HandshakeModel, int), DatatypeError> {
    match spec_varint(s) {
        Ok((pv, c1)) => match spec_read_string(s.skip(c1)) {
            Ok((addr, c2)) => {
                let s2 = s.skip(c1).skip(c2);
                if s2.len() < 2 {
                    Err(DatatypeError::NotEnoughData)
                } else {
                    let port = crate::parser::spec_be(s2, 0, 2) as u16;
                    match spec_varint(s2.skip(2)) {
                        Ok((ns, c4)) => match spec_state_from_num(ns as int) {
                            Some(st) => Ok(
                                (
                                    HandshakeModel {
                                        protocol_version: VarInt { value: pv },
                                        server_address: addr,
                                        server_port: port,
                                        next_state: st,
                                    },
                                    c1 + c2 + 2 + c4,
                                ),
                            ),
                            None => Err(DatatypeError::UnknownState(ns)),
                        },
                        Err(e) => Err(e),
                    }
                }
            },
            Err(e) => Err(e),
        },
        Err(e) => Err(e),
    }
}

impl Handshake {
    /// Decode a handshake body, as [`spec_read_handshake`] describes.
    pub fn from_bytes(r: &mut Reader) -> (res: Result<Handshake, DatatypeError>)
        requires
            old(r).wf(),
        ensures
            final(r).wf(),
            final(r).data == old(r).data,
            match spec_read_handshake(old(r).rest()) {
                Ok((v, c)) => res is Ok && res->Ok_0@ == v && final(r).rest() == old(
                    r,
                ).rest().skip(c),
                Err(e) => res is Err && res->Err_0 == e,
            },
    {
        let ghost s0 = old(r).rest();
        let protocol_version = match VarInt::from_bytes(r) {
            Ok(v) => v,
            Err(e) => {
                return Err(e);
            },
        };
        let server_address = match read_string(r) {
            Ok(v) => v,
            Err(e) => {
                return Err(e);
            },
        };
        let server_port = match r.read_u16() {
            Ok(v) => v,
            Err(e) => {
                return Err(e);
            },
        };
        let next_state_int = match VarInt::from_bytes(r) {
            Ok(v) => v,
            Err(e) => {
                return Err(e);
            },
        };
        let next_state = match State::from_num(next_state_int.value) {
            Ok(v) => v,
            Err(e) => {
                return Err(e);
            },
        };
        proof {
            let c1 = spec_varint(s0)->Ok_0.1;
            let c2 = spec_read_string(s0.skip(c1))->Ok_0.1;
            let s2 = s0.skip(c1).skip(c2);
            let c4 = spec_varint(s2.skip(2))->Ok_0.1;
            lemma_varint_consumed(s0);
            lemma_read_string_consumed(s0.skip(c1));
            lemma_varint_consumed(s2.skip(2));
            assert(s2.skip(2).skip(c4) =~= s0.skip(c1 + c2 + 2 + c4));
        }
        Ok(Handshake { protocol_version, server_address, server_port, next_state })
    }
}

} // verus!
