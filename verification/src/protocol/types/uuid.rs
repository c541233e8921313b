use crate::protocol::types::error::DatatypeError;
use crate::protocol::types::reader::Reader;
use vstd::prelude::*;

verus! {

/// A 128-bit identity, kept as its sixteen raw bytes.
#[derive(Debug, Clone)]
pub struct Uuid {
    pub bytes: Vec<u8>,
}

impl Uuid {
    /// A well-formed identity holds exactly sixteen bytes.
    pub open spec fn wf(&self) -> bool {
        self.bytes@.len() == 16
    }
}

/// A 16-byte identity field: the first sixteen bytes, or `NotEnoughData`.
pub open spec fn spec_read_uuid(s: Seq<u8>) -> Result<(Seq<u8>, int), DatatypeError> {
    if s.len() < 16 {
        Err(DatatypeError::NotEnoughData)
    } else {
        Ok((s.take(16), 16))
    }
}

impl Uuid {
    /// Decode an identity field, as [`spec_read_uuid`] describes.
    pub fn from_bytes(r: &mut Reader) -> (res: Result<Uuid, DatatypeError>)
        requires
            old(r).wf(),
        ensures
            final(r).wf(),
            final(r).data == old(r).data,
            match spec_read_uuid(old(r).rest()) {
                Ok((v, c)) => res is Ok && res->Ok_0.bytes@ == v && res->Ok_0.wf()
                    && final(r).rest() == old(r).rest().skip(c),
                Err(e) => res == Err::<Uuid, DatatypeError>(e) && *final(r) == *old(r),
            },
    {
        match r.read_exact(16) {
            Ok(bytes) => Ok(Uuid { bytes }),
            Err(e) => Err(e),
        }
    }
}

} // verus!
