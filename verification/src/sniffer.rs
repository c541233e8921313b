//! Cutting the reassembled byte stream into length-prefixed frames: each
//! frame is announced by a variable-length integer giving its byte count.

use crate::protocol::types::error::DatatypeError;
use crate::protocol::types::reader::Reader;
use crate::protocol::types::var_num::{lemma_varint_consumed, spec_varint, VarInt};
use vstd::prelude::*;

verus! {

/// Accumulates delivered message bytes and cuts complete frames off the
/// front. `expected_length` is the announced length of the frame being
/// awaited, or zero when the next length prefix has not been read yet.
pub struct FrameSplitter {
    pub buffer: Vec<u8>,
    pub expected_length: usize,
}

/// What feeding one delivered payload to the splitter yields: the new
/// buffered bytes, the new awaited length, and at most one complete frame.
/// With no frame length pending, a length prefix is read first — its
/// failure is the splitter's failure — and a frame is cut as soon as the
/// buffer covers the awaited length. A negative announced length reads as
/// the matching unsigned 64-bit value, which no input can satisfy in
/// practice.
pub open spec fn spec_push_data(buffer: Seq<u8>, expected: int, payload: Seq<u8>) -> Result<
    (Seq<u8>, int, Option<Seq<u8>>),
    DatatypeError,
> {
    let b = buffer + payload;
    if expected == 0 {
        match spec_varint(b) {
            Ok((v, c)) => {
                let b2 = b.skip(c);
                let e2 = (v as usize) as int;
                if b2.len() >= e2 {
                    Ok((b2.skip(e2), 0, Some(b2.take(e2))))
                } else {
                    Ok((b2, e2, None))
                }
            },
            Err(e) => Err(e),
        }
    } else {
        if b.len() >= expected {
            Ok((b.skip(expected), 0, Some(b.take(expected))))
        } else {
            Ok((b, expected, None))
        }
    }
}

impl FrameSplitter {
    /// An empty splitter: nothing buffered, no frame awaited.
    pub fn new() -> (r: FrameSplitter)
        ensures
            r.buffer@ == Seq::<u8>::empty(),
            r.expected_length == 0,
    {
        FrameSplitter { buffer: Vec::new(), expected_length: 0 }
    }

    /// Feed one delivered payload, exactly as [`spec_push_data`] describes.
    pub fn push_data(&mut self, payload: Vec<u8>) -> (res: Result<
        Option<Vec<u8>>,
        DatatypeError,
    >)
        ensures
            match spec_push_data(
                old(self).buffer@,
                old(self).expected_length as int,
                payload@,
            ) {
                Ok((b2, e2, frame)) => res is Ok && final(self).buffer@ == b2
                    && final(self).expected_length == e2 && (match frame {
                    Some(f) => res->Ok_0 is Some && res->Ok_0->0@ == f,
                    None => res->Ok_0 is None,
                }),
                Err(e) => res is Err && res->Err_0 == e,
            },
    {
        let ghost b = old(self).buffer@ + payload@;
        let mut payload = payload;
        self.buffer.append(&mut payload);
        if self.expected_length == 0 {
            let mut r = Reader::new(
                crate::parser::bytes_range(self.buffer.as_slice(), 0, self.buffer.len()),
            );
            proof {
                assert(b.subrange(0, b.len() as int) =~= b);
            }
            let vi = match VarInt::from_bytes(&mut r) {
                Ok(v) => v,
                Err(e) => {
                    return Err(e);
                },
            };
            proof {
                lemma_varint_consumed(b);
                let c = spec_varint(b)->Ok_0.1;
                assert(r.data@ == b);
                assert(r.rest() == b.skip(c));
                assert(r.rest() == r.data@.skip(r.pos as int));
                assert(b.skip(c).len() == b.len() - c);
                assert(b.skip(r.pos as int).len() == b.len() - r.pos);
                assert(r.pos == c);
            }
            let c = r.pos;
            self.buffer = crate::parser::bytes_range(self.buffer.as_slice(), c, self.buffer.len());
            self.expected_length = #[verifier::truncate] (vi.value as usize);
        }
        if self.buffer.len() >= self.expected_length {
            let e = self.expected_length;
            let frame = crate::parser::bytes_range(self.buffer.as_slice(), 0, e);
            self.buffer = crate::parser::bytes_range(self.buffer.as_slice(), e, self.buffer.len());
            self.expected_length = 0;
            Ok(Some(frame))
        } else {
            Ok(None)
        }
    }
}

} // verus!
