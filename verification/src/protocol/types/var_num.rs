use crate::protocol::types::error::DatatypeError;
use crate::protocol::types::reader::Reader;
use vstd::arithmetic::div_mod::lemma_fundamental_div_mod;
use vstd::arithmetic::power::{lemma_pow_increases, pow};
use vstd::prelude::*;

verus! {

/// A variable-length 32-bit integer: seven data bits per byte, least
/// significant group first, the high bit of each byte signalling that
/// another byte follows.
#[derive(Debug, Copy, Clone, PartialEq, Eq, Structural)]
pub struct VarInt {
    pub value: i32,
}

/// Decode at most `max` groups of seven bits from the front of `s`: the
/// unbounded value and the count of bytes consumed, `TooBig` where `max`
/// groups did not end the encoding, `NotEnoughData` where `s` ended first.
pub open spec fn spec_varint_raw(s: Seq<u8>, max: nat) -> Result<(int, int), DatatypeError>
    decreases max,
{
    if max == 0 {
        Err(DatatypeError::TooBig)
    } else if s.len() == 0 {
        Err(DatatypeError::NotEnoughData)
    } else if s[0] < 128 {
        Ok((s[0] as int, 1))
    } else {
        match spec_varint_raw(s.skip(1), (max - 1) as nat) {
            Ok((v, c)) => Ok(((s[0] - 128) + 128 * v, c + 1)),
            Err(e) => Err(e),
        }
    }
}

/// What decoding a variable-length integer from the front of `s` yields:
/// the value truncated to 32 bits as a signed integer, together with the
/// count of bytes consumed; `TooBig` after five continuation bytes,
/// `NotEnoughData` where `s` ends before a terminating byte.
pub open spec fn spec_varint(s: Seq<u8>) -> Result<(i32, int), DatatypeError> {
    match spec_varint_raw(s, 5) {
        Ok((v, c)) => Ok(((((v % 0x100000000) as u32) as i32), c)),
        Err(e) => Err(e),
    }
}

/// The canonical encoding of an unsigned value: base-128 digits, least
/// significant first, all but the last carrying the continuation bit.
pub open spec fn spec_varint_enc(n: nat) -> Seq<u8>
    decreases n,
{
    if n < 128 {
        seq![n as u8]
    } else {
        seq![((n % 128) + 128) as u8] + spec_varint_enc((n / 128) as nat)
    }
}

impl VarInt {
    /// Decode a variable-length integer from the front of the reader,
    /// exactly as [`spec_varint`] describes; on failure the reader is left
    /// as it was.
    pub fn from_bytes(r: &mut Reader) -> (res: Result<VarInt, DatatypeError>)
        requires
            old(r).wf(),
        ensures
            final(r).wf(),
            final(r).data == old(r).data,
            match spec_varint(old(r).rest()) {
                Ok((v, c)) => res == Ok::<VarInt, DatatypeError>(VarInt { value: v }) && final(r).rest() == old(r).rest().skip(c),
                Err(e) => res == Err::<VarInt, DatatypeError>(e) && *final(r) == *old(r),
            },
    {
        let ghost s0 = old(r).rest();
        let mut acc: u64 = 0;
        let mut mult: u64 = 1;
        let mut count: usize = 0;
        proof {
            reveal(pow);
            assert(s0.skip(0) =~= s0);
        }
        while count < 5
            invariant
                *r == *old(r),
                r.wf(),
                s0 == r.rest(),
                count <= 5,
                count <= s0.len(),
                mult == pow(128, count as nat),
                acc < pow(128, count as nat),
                match spec_varint_raw(s0.skip(count as int), (5 - count) as nat) {
                    Ok((v, c)) => spec_varint_raw(s0, 5) == Ok::<(int, int), DatatypeError>(
                        (acc + mult * v, count + c),
                    ),
                    Err(e) => spec_varint_raw(s0, 5) == Err::<(int, int), DatatypeError>(e),
                },
            decreases 5 - count,
        {
            proof {
                lemma_pow_increases(128, count as nat, 4);
                reveal_with_fuel(pow, 6);
                assert(pow(128, 4) == 0x10000000);
                reveal(pow);
                assert(pow(128, (count + 1) as nat) == 128 * pow(128, count as nat));
            }
            let rem = r.data.len() - r.pos;
            if rem <= count {
                proof {
                    assert(s0.skip(count as int).len() == 0);
                }
                return Err(DatatypeError::NotEnoughData);
            }
            let b = r.data[r.pos + count];
            proof {
                assert(s0.skip(count as int)[0] == s0[count as int]);
            }
            if b < 128 {
                proof {
                    assert((b as int) * (mult as int) <= 127 * pow(128, count as nat))
                        by (nonlinear_arith)
                        requires
                            b < 128,
                            0 <= mult,
                            mult == pow(128, count as nat),
                    ;
                }
                let ghost entry_acc = acc as int;
                acc = acc + (b as u64) * mult;
                r.pos = r.pos + count + 1;
                let low = #[verifier::truncate] (acc as u32);
                proof {
                    assert(final(r).rest() =~= s0.skip((count + 1) as int));
                    assert(spec_varint_raw(s0.skip(count as int), (5 - count) as nat)
                        == Ok::<(int, int), DatatypeError>((b as int, 1)));
                    assert(spec_varint_raw(s0, 5) == Ok::<(int, int), DatatypeError>(
                        (entry_acc + mult * b, count + 1),
                    ));
                    assert((b as int) * (mult as int) == (mult as int) * (b as int))
                        by (nonlinear_arith);
                    assert(acc as int == entry_acc + mult * b);
                    assert((acc as u32) as u64 == acc % 0x100000000) by (bit_vector);
                    assert(low == (entry_acc + mult * b) % 0x100000000);
                }
                return Ok(VarInt { value: #[verifier::truncate] (low as i32) });
            } else {
                let ghost old_acc = acc as int;
                let ghost old_mult = mult as int;
                proof {
                    assert(((b - 128) as int) * (mult as int) <= 127 * pow(128, count as nat))
                        by (nonlinear_arith)
                        requires
                            128 <= b < 256,
                            0 <= mult,
                            mult == pow(128, count as nat),
                    ;
                }
                acc = acc + ((b - 128) as u64) * mult;
                mult = mult * 128;
                proof {
                    assert(s0.skip(count as int).skip(1) =~= s0.skip(count + 1 as int));
                    let sub = spec_varint_raw(s0.skip(count + 1 as int), (4 - count) as nat);
                    if sub is Ok {
                        let v = sub->Ok_0.0;
                        assert(old_mult * ((b - 128) + 128 * v) == old_mult * (b - 128) + (old_mult
                            * 128) * v) by (nonlinear_arith);
                    }
                }
                count = count + 1;
            }
        }
        Err(DatatypeError::TooBig)
    }
}

/// A successful raw decode consumes between one byte and the whole input.
pub proof fn lemma_varint_raw_consumed(s: Seq<u8>, max: nat)
    ensures
        spec_varint_raw(s, max) is Ok ==> 1 <= spec_varint_raw(s, max)->Ok_0.1 <= s.len(),
    decreases max,
{
    if max > 0 && s.len() > 0 && s[0] >= 128 {
        lemma_varint_raw_consumed(s.skip(1), (max - 1) as nat);
    }
}

/// A successful decode consumes between one byte and the whole input.
pub proof fn lemma_varint_consumed(s: Seq<u8>)
    ensures
        spec_varint(s) is Ok ==> 1 <= spec_varint(s)->Ok_0.1 <= s.len(),
{
    lemma_varint_raw_consumed(s, 5);
}

/// Encode a 32-bit value canonically, as [`spec_varint_enc`] describes.
pub fn encode_varint(n: u32) -> (r: Vec<u8>)
    ensures
        r@ == spec_varint_enc(n as nat),
{
    let mut out: Vec<u8> = Vec::new();
    let mut v: u32 = n;
    proof {
        assert(out@ + spec_varint_enc(v as nat) =~= spec_varint_enc(n as nat));
    }
    while v >= 128
        invariant
            out@ + spec_varint_enc(v as nat) == spec_varint_enc(n as nat),
        decreases v,
    {
        let ghost prev = out@;
        out.push((v % 128 + 128) as u8);
        proof {
            assert(out@ + spec_varint_enc((v as nat) / 128) =~= prev + spec_varint_enc(v as nat));
        }
        v = v / 128;
    }
    let ghost prev = out@;
    out.push(v as u8);
    proof {
        assert(out@ =~= prev + spec_varint_enc(v as nat));
    }
    out
}

/// The canonical encoding of a value below `pow(128, k)` takes at most `k`
/// bytes, and always at least one.
pub proof fn lemma_varint_enc_len(n: nat, k: nat)
    requires
        1 <= k,
        n < pow(128, k),
    ensures
        1 <= spec_varint_enc(n).len() <= k,
    decreases n,
{
    reveal(pow);
    if n < 128 {
    } else {
        assert(pow(128, k) == 128 * pow(128, (k - 1) as nat));
        assert(n / 128 < pow(128, (k - 1) as nat)) by (nonlinear_arith)
            requires
                n >= 128,
                n < 128 * pow(128, (k - 1) as nat),
        ;
        assert(k >= 2) by {
            if k == 1 {
                assert(pow(128, 1) == 128);
            }
        }
        lemma_varint_enc_len(n / 128, (k - 1) as nat);
    }
}

/// Raw decoding inverts the canonical encoding, with any bytes following.
proof fn lemma_varint_raw_round_trip(n: nat, tail: Seq<u8>, max: nat)
    requires
        spec_varint_enc(n).len() <= max,
    ensures
        spec_varint_raw(spec_varint_enc(n) + tail, max) == Ok::<(int, int), DatatypeError>(
            (n as int, spec_varint_enc(n).len() as int),
        ),
    decreases n,
{
    let s = spec_varint_enc(n) + tail;
    if n < 128 {
        assert(s[0] == n as u8);
    } else {
        let b = ((n % 128) + 128) as u8;
        assert(s[0] == b);
        assert(s.skip(1) =~= spec_varint_enc((n / 128) as nat) + tail);
        lemma_varint_raw_round_trip((n / 128) as nat, tail, (max - 1) as nat);
        lemma_fundamental_div_mod(n as int, 128);
    }
}

/// Decoding the canonical encoding of any 32-bit unsigned value, with any
/// bytes following, yields exactly that value and consumes exactly the
/// encoding, which is between one and five bytes long.
pub proof fn lemma_varint_round_trip(n: u32, tail: Seq<u8>)
    ensures
        1 <= spec_varint_enc(n as nat).len() <= 5,
        spec_varint(spec_varint_enc(n as nat) + tail) == Ok::<(i32, int), DatatypeError>(
            (n as i32, spec_varint_enc(n as nat).len() as int),
        ),
{
    reveal_with_fuel(pow, 6);
    assert(pow(128, 5) == 0x800000000);
    lemma_varint_enc_len(n as nat, 5);
    lemma_varint_raw_round_trip(n as nat, tail, 5);
}

/// A run of five continuation bytes fails as over-long, whatever follows.
pub proof fn lemma_varint_too_long(s: Seq<u8>)
    requires
        s.len() >= 5,
        forall|i: int| 0 <= i < 5 ==> s[i] >= 128,
    ensures
        spec_varint(s) == Err::<(i32, int), DatatypeError>(DatatypeError::TooBig),
{
    lemma_varint_raw_all_continuation(s, 5);
}

proof fn lemma_varint_raw_all_continuation(s: Seq<u8>, max: nat)
    requires
        s.len() >= max,
        forall|i: int| 0 <= i < max ==> s[i] >= 128,
    ensures
        spec_varint_raw(s, max) == Err::<(int, int), DatatypeError>(DatatypeError::TooBig),
    decreases max,
{
    if max > 0 {
        assert(forall|i: int| 0 <= i < max - 1 ==> s.skip(1)[i] == s[i + 1]);
        lemma_varint_raw_all_continuation(s.skip(1), (max - 1) as nat);
    }
}

} // verus!
