use crate::protocol::types::error::DatatypeError;
use crate::protocol::types::reader::Reader;
use crate::protocol::types::string::{read_string, spec_read_string};
use vstd::prelude::*;

verus! {

/// One entry of a known-packs list: pack namespace, pack id, pack version.
#[derive(Debug, Clone)]
pub struct KnownPack {
    pub namespace: String,
    pub id: String,
    pub version: String,
}

/// Mathematical image of a [`KnownPack`].
pub struct KnownPackModel {
    pub namespace: Seq<char>,
    pub id: Seq<char>,
    pub version: Seq<char>,
}

impl View for KnownPack {
    type V = KnownPackModel;

    open spec fn view(&self) -> KnownPackModel {
        KnownPackModel { namespace: self.namespace@, id: self.id@, version: self.version@ }
    }
}

/// A known-pack field: three consecutive string fields.
pub open spec fn spec_read_known_pack(s: Seq<u8>) -> Result<(KnownPackModel, int), DatatypeError> {
    match spec_read_string(s) {
        Ok((namespace, c1)) => match spec_read_string(s.skip(c1)) {
            Ok((id, c2)) => match spec_read_string(s.skip(c1).skip(c2)) {
                Ok((version, c3)) => Ok(
                    (KnownPackModel { namespace, id, version }, c1 + c2 + c3),
                ),
                Err(e) => Err(e),
            },
            Err(e) => Err(e),
        },
        Err(e) => Err(e),
    }
}

/// A successful known-pack decode consumes at most the whole input.
pub proof fn lemma_read_known_pack_consumed(s: Seq<u8>)
    ensures
        spec_read_known_pack(s) is Ok ==> 0 <= spec_read_known_pack(s)->Ok_0.1 <= s.len(),
{
    if spec_read_known_pack(s) is Ok {
        let c1 = spec_read_string(s)->Ok_0.1;
        let c2 = spec_read_string(s.skip(c1))->Ok_0.1;
        crate::protocol::types::string::lemma_read_string_consumed(s);
        crate::protocol::types::string::lemma_read_string_consumed(s.skip(c1));
        crate::protocol::types::string::lemma_read_string_consumed(s.skip(c1).skip(c2));
    }
}

impl KnownPack {
    /// Decode a known-pack field, as [`spec_read_known_pack`] describes.
    pub fn from_bytes(r: &mut Reader) -> (res: Result<KnownPack, DatatypeError>)
        requires
            old(r).wf(),
        ensures
            final(r).wf(),
            final(r).data == old(r).data,
            match spec_read_known_pack(old(r).rest()) {
                Ok((v, c)) => res is Ok && res->Ok_0@ == v && final(r).rest() == old(
                    r,
                ).rest().skip(c),
                Err(e) => res == Err::<KnownPack, DatatypeError>(e),
            },
    {
        let ghost s0 = old(r).rest();
        let namespace = match read_string(r) {
            Ok(v) => v,
            Err(e) => {
                return Err(e);
            },
        };
        let id = match read_string(r) {
            Ok(v) => v,
            Err(e) => {
                return Err(e);
            },
        };
        let version = match read_string(r) {
            Ok(v) => v,
            Err(e) => {
                return Err(e);
            },
        };
        proof {
            let c1 = spec_read_string(s0)->Ok_0.1;
            let c2 = spec_read_string(s0.skip(c1))->Ok_0.1;
            let c3 = spec_read_string(s0.skip(c1).skip(c2))->Ok_0.1;
            crate::protocol::types::string::lemma_read_string_consumed(s0);
            crate::protocol::types::string::lemma_read_string_consumed(s0.skip(c1));
            crate::protocol::types::string::lemma_read_string_consumed(s0.skip(c1).skip(c2));
            assert(s0.skip(c1).skip(c2).skip(c3) =~= s0.skip(c1 + c2 + c3));
        }
        Ok(KnownPack { namespace, id, version })
    }
}

} // verus!
