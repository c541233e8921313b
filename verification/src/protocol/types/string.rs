use crate::protocol::types::error::DatatypeError;
use crate::protocol::types::reader::Reader;
use crate::protocol::types::var_num::{lemma_varint_consumed, spec_varint, VarInt};
use vstd::prelude::*;
use vstd::utf8::{decode_utf8, valid_utf8};

verus! {

/// The raw bytes of a length-prefixed string field: a variable-length
/// integer count, then that many bytes. A negative count reads as the
/// matching unsigned 64-bit value, which no input can satisfy in practice.
pub open spec fn spec_read_string_bytes(s: Seq<u8>) -> Result<(Seq<u8>, int), DatatypeError> {
    match spec_varint(s) {
        Ok((v, c)) => {
            let n = (v as usize) as int;
            if s.len() - c < n {
                Err(DatatypeError::NotEnoughData)
            } else {
                Ok((s.subrange(c, c + n), c + n))
            }
        },
        Err(e) => Err(e),
    }
}

/// A string field: its raw bytes decoded as UTF-8, or `Invalid` where they
/// are not valid UTF-8.
pub open spec fn spec_read_string(s: Seq<u8>) -> Result<(Seq<char>, int), DatatypeError> {
    match spec_read_string_bytes(s) {
        Ok((raw, c)) => if valid_utf8(raw) {
            Ok((decode_utf8(raw), c))
        } else {
            Err(DatatypeError::Invalid)
        },
        Err(e) => Err(e),
    }
}

/// A successful string-field decode consumes at most the whole input.
pub proof fn lemma_read_string_consumed(s: Seq<u8>)
    ensures
        spec_read_string_bytes(s) is Ok ==> 0 <= spec_read_string_bytes(s)->Ok_0.1 <= s.len(),
        spec_read_string(s) is Ok ==> 0 <= spec_read_string(s)->Ok_0.1 <= s.len(),
{
    crate::protocol::types::var_num::lemma_varint_consumed(s);
}

/// Relies on `String::from_utf8`: it returns a string holding exactly the
/// given bytes when they are valid UTF-8, and an error otherwise.
#[verifier::external_body]
pub(crate) fn utf8_to_string(bytes: Vec<u8>) -> (r: Result<String, DatatypeError>)
    ensures
        match r {
            Ok(s) => valid_utf8(bytes@) && s@ == decode_utf8(bytes@),
            Err(e) => !valid_utf8(bytes@) && e == DatatypeError::Invalid,
        },
{
    String::from_utf8(bytes).map_err(|_| DatatypeError::Invalid)
}

/// Decode the raw bytes of a length-prefixed string field, as
/// [`spec_read_string_bytes`] describes.
pub fn read_string_bytes(r: &mut Reader) -> (res: Result<Vec<u8>, DatatypeError>)
    requires
        old(r).wf(),
    ensures
        final(r).wf(),
        final(r).data == old(r).data,
        match spec_read_string_bytes(old(r).rest()) {
            Ok((v, c)) => res is Ok && res->Ok_0@ == v && final(r).rest() == old(r).rest().skip(c),
            Err(e) => res == Err::<Vec<u8>, DatatypeError>(e),
        },
{
    let ghost s0 = old(r).rest();
    let vi = match VarInt::from_bytes(r) {
        Ok(vi) => vi,
        Err(e) => {
            return Err(e);
        },
    };
    let ghost c = spec_varint(s0)->Ok_0.1;
    proof {
        lemma_varint_consumed(s0);
    }
    let n = #[verifier::truncate] (vi.value as usize);
    match r.read_exact(n) {
        Ok(bytes) => {
            proof {
                lemma_varint_consumed(s0);
                assert(bytes@ =~= s0.subrange(c, c + n as int));
                assert(final(r).rest() =~= s0.skip(c + n as int));
            }
            Ok(bytes)
        },
        Err(e) => Err(e),
    }
}

/// Decode a string field, as [`spec_read_string`] describes.
pub fn read_string(r: &mut Reader) -> (res: Result<String, DatatypeError>)
    requires
        old(r).wf(),
    ensures
        final(r).wf(),
        final(r).data == old(r).data,
        match spec_read_string(old(r).rest()) {
            Ok((v, c)) => res is Ok && res->Ok_0@ == v && final(r).rest() == old(r).rest().skip(c),
            Err(e) => res == Err::<String, DatatypeError>(e),
        },
{
    match read_string_bytes(r) {
        Ok(bytes) => utf8_to_string(bytes),
        Err(e) => Err(e),
    }
}

} // verus!
