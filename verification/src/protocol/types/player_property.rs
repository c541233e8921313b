use crate::protocol::types::error::DatatypeError;
use crate::protocol::types::primitives::spec_read_bool;
use crate::protocol::types::reader::Reader;
use crate::protocol::types::string::{read_string, spec_read_string};
use vstd::prelude::*;

verus! {

/// One profile property: a name, a value, and an optional signature.
#[derive(Debug, Clone)]
pub struct PlayerProperty {
    pub name: String,
    pub value: String,
    pub signature: Option<String>,
}

/// Mathematical image of a [`PlayerProperty`].
pub struct PlayerPropertyModel {
    pub name: Seq<char>,
    pub value: Seq<char>,
    pub signature: Option<Seq<char>>,
}

impl View for PlayerProperty {
    type V = PlayerPropertyModel;

    open spec fn view(&self) -> PlayerPropertyModel {
        PlayerPropertyModel {
            name: self.name@,
            value: self.value@,
            signature: match self.signature {
                Some(ref s) => Some(s@),
                None => None,
            },
        }
    }
}

/// A profile-property field: two string fields, a boolean, and, where the
/// boolean is true, the signature string field.
pub open spec fn spec_read_player_property(s: Seq<u8>) -> Result<
    (PlayerPropertyModel, int),
    DatatypeError,
> {
    match spec_read_string(s) {
        Ok((name, c1)) => match spec_read_string(s.skip(c1)) {
            Ok((value, c2)) => match spec_read_bool(s.skip(c1).skip(c2)) {
                Ok((present, c3)) => if present {
                    match spec_read_string(s.skip(c1).skip(c2).skip(c3)) {
                        Ok((sig, c4)) => Ok(
                            (
                                PlayerPropertyModel { name, value, signature: Some(sig) },
                                c1 + c2 + c3 + c4,
                            ),
                        ),
                        Err(e) => Err(e),
                    }
                } else {
                    Ok((PlayerPropertyModel { name, value, signature: None }, c1 + c2 + c3))
                },
                Err(e) => Err(e),
            },
            Err(e) => Err(e),
        },
        Err(e) => Err(e),
    }
}

/// A successful profile-property decode consumes at most the whole input.
pub proof fn lemma_read_player_property_consumed(s: Seq<u8>)
    ensures
        spec_read_player_property(s) is Ok ==> 0 <= spec_read_player_property(s)->Ok_0.1
            <= s.len(),
{
    if spec_read_player_property(s) is Ok {
        let c1 = spec_read_string(s)->Ok_0.1;
        let c2 = spec_read_string(s.skip(c1))->Ok_0.1;
        crate::protocol::types::string::lemma_read_string_consumed(s);
        crate::protocol::types::string::lemma_read_string_consumed(s.skip(c1));
        crate::protocol::types::string::lemma_read_string_consumed(s.skip(c1).skip(c2).skip(1));
    }
}

impl PlayerProperty {
    /// Decode a profile-property field, as [`spec_read_player_property`]
    /// describes.
    pub fn from_bytes(r: &mut Reader) -> (res: Result<PlayerProperty, DatatypeError>)
        requires
            old(r).wf(),
        ensures
            final(r).wf(),
            final(r).data == old(r).data,
            match spec_read_player_property(old(r).rest()) {
                Ok((v, c)) => res is Ok && res->Ok_0@ == v && final(r).rest() == old(
                    r,
                ).rest().skip(c),
                Err(e) => res == Err::<PlayerProperty, DatatypeError>(e),
            },
    {
        let ghost s0 = old(r).rest();
        let name = match read_string(r) {
            Ok(v) => v,
            Err(e) => {
                return Err(e);
            },
        };
        let value = match read_string(r) {
            Ok(v) => v,
            Err(e) => {
                return Err(e);
            },
        };
        let present = match r.read_bool() {
            Ok(v) => v,
            Err(e) => {
                return Err(e);
            },
        };
        let ghost c1 = spec_read_string(s0)->Ok_0.1;
        let ghost c2 = spec_read_string(s0.skip(c1))->Ok_0.1;
        let ghost c3 = spec_read_bool(s0.skip(c1).skip(c2))->Ok_0.1;
        proof {
            crate::protocol::types::string::lemma_read_string_consumed(s0);
            crate::protocol::types::string::lemma_read_string_consumed(s0.skip(c1));
        }
        if present {
            let signature = match read_string(r) {
                Ok(v) => v,
                Err(e) => {
                    return Err(e);
                },
            };
            proof {
                let c4 = spec_read_string(s0.skip(c1).skip(c2).skip(c3))->Ok_0.1;
                crate::protocol::types::string::lemma_read_string_consumed(
                    s0.skip(c1).skip(c2).skip(c3),
                );
                assert(s0.skip(c1).skip(c2).skip(c3).skip(c4) =~= s0.skip(c1 + c2 + c3 + c4));
            }
            Ok(PlayerProperty { name, value, signature: Some(signature) })
        } else {
            proof {
                assert(s0.skip(c1).skip(c2).skip(c3) =~= s0.skip(c1 + c2 + c3));
            }
            Ok(PlayerProperty { name, value, signature: None })
        }
    }
}

} // verus!
