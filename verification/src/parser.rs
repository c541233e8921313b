//! Link- and transport-layer parsing: raw bytes to structured records.

pub mod error;
pub mod ether_ip;
pub mod tcp;
pub mod udp;

use vstd::arithmetic::power::{lemma_pow_increases, pow};
use vstd::prelude::*;

verus! {

/// Value of the `n` bytes `s[i .. i + n]` read as a big-endian unsigned
/// integer.
pub open spec fn spec_be(s: Seq<u8>, i: int, n: nat) -> int
    decreases n,
{
    if n == 0 {
        0
    } else {
        spec_be(s, i, (n - 1) as nat) * 256 + s[i + n - 1]
    }
}

pub proof fn lemma_spec_be_bound(s: Seq<u8>, i: int, n: nat)
    ensures
        0 <= spec_be(s, i, n) < pow(256, n),
    decreases n,
{
    reveal(pow);
    if n == 0 {
        assert(pow(256, 0) == 1);
    } else {
        lemma_spec_be_bound(s, i, (n - 1) as nat);
        assert(pow(256, n) == 256 * pow(256, (n - 1) as nat));
        assert(spec_be(s, i, (n - 1) as nat) * 256 <= (pow(256, (n - 1) as nat) - 1) * 256);
    }
}

/// Reading at an offset is the same as reading at the front of the suffix.
pub proof fn lemma_spec_be_shift(s: Seq<u8>, i: int, n: nat)
    requires
        0 <= i,
        i + n <= s.len(),
    ensures
        spec_be(s, i, n) == spec_be(s.skip(i), 0, n),
    decreases n,
{
    if n > 0 {
        lemma_spec_be_shift(s, i, (n - 1) as nat);
    }
}

/// Big-endian value of `data[i .. i + n]`, for widths up to 16 bytes.
pub fn be_at(data: &[u8], i: usize, n: usize) -> (r: u128)
    requires
        i + n <= data@.len(),
        n <= 16,
    ensures
        r as int == spec_be(data@, i as int, n as nat),
{
    let dlen = data.len();
    let mut acc: u128 = 0;
    let mut k: usize = 0;
    proof {
        reveal(pow);
        assert(pow(256, 0) == 1);
    }
    while k < n
        invariant
            k <= n,
            i + n <= dlen,
            dlen == data@.len(),
            n <= 16,
            acc as int == spec_be(data@, i as int, k as nat),
            acc < pow(256, k as nat),
        decreases n - k,
    {
        proof {
            lemma_pow_increases(256, k as nat, 15);
            reveal_with_fuel(pow, 16);
            assert(pow(256, 15) == 0x1000000000000000000000000000000);
            reveal(pow);
            assert(pow(256, (k + 1) as nat) == 256 * pow(256, k as nat));
        }
        let b = data[i + k];
        acc = acc * 256 + (b as u128);
        k = k + 1;
    }
    acc
}

/// Big-endian value of `data[i .. i + 2]`.
pub fn be16_at(data: &[u8], i: usize) -> (r: u16)
    requires
        i + 2 <= data@.len(),
    ensures
        r as int == spec_be(data@, i as int, 2),
{
    proof {
        lemma_spec_be_bound(data@, i as int, 2);
        reveal_with_fuel(pow, 3);
        assert(pow(256, 2) == 0x10000);
    }
    be_at(data, i, 2) as u16
}

/// Big-endian value of `data[i .. i + 4]`.
pub fn be32_at(data: &[u8], i: usize) -> (r: u32)
    requires
        i + 4 <= data@.len(),
    ensures
        r as int == spec_be(data@, i as int, 4),
{
    proof {
        lemma_spec_be_bound(data@, i as int, 4);
        reveal_with_fuel(pow, 5);
        assert(pow(256, 4) == 0x100000000);
    }
    be_at(data, i, 4) as u32
}

/// Copy of `data[start .. end]` as an owned vector.
pub fn bytes_range(data: &[u8], start: usize, end: usize) -> (r: Vec<u8>)
    requires
        start <= end <= data@.len(),
    ensures
        r@ == data@.subrange(start as int, end as int),
{
    let sub = vstd::slice::slice_subrange(data, start, end);
    vstd::slice::slice_to_vec(sub)
}

/// Copy a slice whose length is statically known into a fixed-size array.
pub fn slice_to_array_unchecked<const N: usize>(slice: &[u8]) -> (r: [u8; N])
    requires
        slice@.len() == N,
    ensures
        r@ == slice@,
{
    let mut out: [u8; N] = vstd::array::array_fill_for_copy_types(0u8);
    let mut i: usize = 0;
    while i < N
        invariant
            i <= N,
            slice@.len() == N,
            out@.len() == N,
            forall|j: int| 0 <= j < i ==> out@[j] == slice@[j],
        decreases N - i,
    {
        out[i] = slice[i];
        i = i + 1;
    }
    assert(out@ =~= slice@);
    out
}

} // verus!
