use crate::parser::{be16_at, be_at, lemma_spec_be_bound, lemma_spec_be_shift, spec_be};
use crate::protocol::types::error::DatatypeError;
use crate::protocol::types::reader::Reader;
use vstd::arithmetic::power::pow;
use vstd::prelude::*;

verus! {

/// A big-endian 16-bit field: the first two bytes, or `NotEnoughData`.
pub open spec fn spec_read_u16(s: Seq<u8>) -> Result<(u16, int), DatatypeError> {
    if s.len() < 2 {
        Err(DatatypeError::NotEnoughData)
    } else {
        Ok((spec_be(s, 0, 2) as u16, 2))
    }
}

/// A big-endian signed 64-bit field: the first eight bytes read as two's
/// complement, or `NotEnoughData`.
pub open spec fn spec_read_i64(s: Seq<u8>) -> Result<(i64, int), DatatypeError> {
    if s.len() < 8 {
        Err(DatatypeError::NotEnoughData)
    } else {
        Ok(((spec_be(s, 0, 8) as u64) as i64, 8))
    }
}

/// A boolean field: one byte, true exactly when that byte is 1.
pub open spec fn spec_read_bool(s: Seq<u8>) -> Result<(bool, int), DatatypeError> {
    if s.len() < 1 {
        Err(DatatypeError::NotEnoughData)
    } else {
        Ok((s[0] == 1, 1))
    }
}

/// An unsigned byte field.
pub open spec fn spec_read_u8(s: Seq<u8>) -> Result<(u8, int), DatatypeError> {
    if s.len() < 1 {
        Err(DatatypeError::NotEnoughData)
    } else {
        Ok((s[0], 1))
    }
}

/// A signed byte field: one byte reinterpreted as two's complement.
pub open spec fn spec_read_i8(s: Seq<u8>) -> Result<(i8, int), DatatypeError> {
    if s.len() < 1 {
        Err(DatatypeError::NotEnoughData)
    } else {
        Ok((s[0] as i8, 1))
    }
}

impl Reader {
    /// Decode a big-endian 16-bit field, as [`spec_read_u16`] describes.
    pub fn read_u16(&mut self) -> (r: Result<u16, DatatypeError>)
        requires
            old(self).wf(),
        ensures
            final(self).wf(),
            final(self).data == old(self).data,
            match spec_read_u16(old(self).rest()) {
                Ok((v, c)) => r == Ok::<u16, DatatypeError>(v) && final(self).rest() == old(self).rest().skip(c),
                Err(e) => r == Err::<u16, DatatypeError>(e) && *final(self) == *old(self),
            },
    {
        if self.data.len() - self.pos < 2 {
            return Err(DatatypeError::NotEnoughData);
        }
        let v = be16_at(self.data.as_slice(), self.pos);
        proof {
            lemma_spec_be_shift(self.data@, self.pos as int, 2);
        }
        self.pos = self.pos + 2;
        proof {
            assert(final(self).rest() =~= old(self).rest().skip(2));
        }
        Ok(v)
    }

    /// Decode a big-endian signed 64-bit field, as [`spec_read_i64`]
    /// describes.
    pub fn read_i64(&mut self) -> (r: Result<i64, DatatypeError>)
        requires
            old(self).wf(),
        ensures
            final(self).wf(),
            final(self).data == old(self).data,
            match spec_read_i64(old(self).rest()) {
                Ok((v, c)) => r == Ok::<i64, DatatypeError>(v) && final(self).rest() == old(self).rest().skip(c),
                Err(e) => r == Err::<i64, DatatypeError>(e) && *final(self) == *old(self),
            },
    {
        if self.data.len() - self.pos < 8 {
            return Err(DatatypeError::NotEnoughData);
        }
        let raw = be_at(self.data.as_slice(), self.pos, 8);
        proof {
            lemma_spec_be_shift(self.data@, self.pos as int, 8);
            lemma_spec_be_bound(self.data@, self.pos as int, 8);
            reveal_with_fuel(pow, 9);
            assert(pow(256, 8) == 0x10000000000000000);
        }
        let v = #[verifier::truncate] ((raw as u64) as i64);
        self.pos = self.pos + 8;
        proof {
            assert(final(self).rest() =~= old(self).rest().skip(8));
        }
        Ok(v)
    }

    /// Decode a boolean field, as [`spec_read_bool`] describes.
    pub fn read_bool(&mut self) -> (r: Result<bool, DatatypeError>)
        requires
            old(self).wf(),
        ensures
            final(self).wf(),
            final(self).data == old(self).data,
            match spec_read_bool(old(self).rest()) {
                Ok((v, c)) => r == Ok::<bool, DatatypeError>(v) && final(self).rest() == old(self).rest().skip(c),
                Err(e) => r == Err::<bool, DatatypeError>(e) && *final(self) == *old(self),
            },
    {
        match self.read_u8() {
            Ok(b) => Ok(b == 1),
            Err(e) => Err(e),
        }
    }

    /// Decode a signed byte field, as [`spec_read_i8`] describes.
    pub fn read_i8(&mut self) -> (r: Result<i8, DatatypeError>)
        requires
            old(self).wf(),
        ensures
            final(self).wf(),
            final(self).data == old(self).data,
            match spec_read_i8(old(self).rest()) {
                Ok((v, c)) => r == Ok::<i8, DatatypeError>(v) && final(self).rest() == old(self).rest().skip(c),
                Err(e) => r == Err::<i8, DatatypeError>(e) && *final(self) == *old(self),
            },
    {
        match self.read_u8() {
            Ok(b) => Ok(#[verifier::truncate] (b as i8)),
            Err(e) => Err(e),
        }
    }
}

} // verus!
