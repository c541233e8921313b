use crate::protocol::types::error::DatatypeError;
use vstd::prelude::*;

verus! {

/// A cursor over the bytes of one frame. Field decoders consume bytes from
/// the front; [`Reader::rest`] is the sequence still to be consumed.
pub struct Reader {
    pub data: Vec<u8>,
    pub pos: usize,
}

impl Reader {
    /// The cursor never runs past the end of the data.
    pub open spec fn wf(&self) -> bool {
        self.pos <= self.data@.len()
    }

    /// The bytes not yet consumed.
    pub open spec fn rest(&self) -> Seq<u8> {
        self.data@.skip(self.pos as int)
    }

    pub fn new(data: Vec<u8>) -> (r: Reader)
        ensures
            r.wf(),
            r.rest() == data@,
            r.data@ == data@,
            r.pos == 0,
    {
        let r = Reader { data, pos: 0 };
        proof {
            assert(r.rest() =~= r.data@);
        }
        r
    }

    /// How many bytes are still to be consumed.
    pub fn remaining(&self) -> (n: usize)
        requires
            self.wf(),
        ensures
            n == self.rest().len(),
    {
        self.data.len() - self.pos
    }

    /// Consume one byte.
    pub fn read_u8(&mut self) -> (r: Result<u8, DatatypeError>)
        requires
            old(self).wf(),
        ensures
            final(self).wf(),
            final(self).data == old(self).data,
            match r {
                Ok(b) => old(self).rest().len() > 0 && b == old(self).rest()[0] && final(self).rest() == old(self).rest().skip(1),
                Err(e) => e == DatatypeError::NotEnoughData && old(self).rest().len() == 0 && *final(self) == *old(self),
            },
    {
        if self.pos < self.data.len() {
            let b = self.data[self.pos];
            self.pos = self.pos + 1;
            proof {
                assert(final(self).rest() =~= old(self).rest().skip(1));
            }
            Ok(b)
        } else {
            Err(DatatypeError::NotEnoughData)
        }
    }

    /// Consume exactly `n` bytes and hand them out as an owned vector.
    pub fn read_exact(&mut self, n: usize) -> (r: Result<Vec<u8>, DatatypeError>)
        requires
            old(self).wf(),
        ensures
            final(self).wf(),
            final(self).data == old(self).data,
            match r {
                Ok(v) => old(self).rest().len() >= n && v@ == old(self).rest().take(n as int)
                    && final(self).rest() == old(self).rest().skip(n as int),
                Err(e) => e == DatatypeError::NotEnoughData && old(self).rest().len() < n && *final(self) == *old(self),
            },
    {
        if n <= self.data.len() - self.pos {
            let out = crate::parser::bytes_range(self.data.as_slice(), self.pos, self.pos + n);
            self.pos = self.pos + n;
            proof {
                assert(out@ =~= old(self).rest().take(n as int));
                assert(final(self).rest() =~= old(self).rest().skip(n as int));
            }
            Ok(out)
        } else {
            Err(DatatypeError::NotEnoughData)
        }
    }

    /// Consume everything that is left.
    pub fn read_rest(&mut self) -> (r: Vec<u8>)
        requires
            old(self).wf(),
        ensures
            final(self).wf(),
            final(self).data == old(self).data,
            r@ == old(self).rest(),
            final(self).rest() == Seq::<u8>::empty(),
    {
        let out = crate::parser::bytes_range(self.data.as_slice(), self.pos, self.data.len());
        self.pos = self.data.len();
        proof {
            assert(out@ =~= old(self).rest());
            assert(final(self).rest() =~= Seq::<u8>::empty());
        }
        out
    }
}

} // verus!
