//! Splitting 64-bit words into 32-bit halves and back, and 64-bit rotation.
//!
//! Seeds for the generator enter the library as eight 32-bit words (256 bits);
//! the generator state works on 64-bit words. These helpers convert between
//! the two layouts and provide the left rotation the generator is built on.

use vstd::prelude::*;

verus! {

/// The high 32 bits of a 64-bit word.
pub open spec fn hi32(u: u64) -> u32 {
    (u >> 32) as u32
}

/// The low 32 bits of a 64-bit word.
pub open spec fn lo32(u: u64) -> u32 {
    (u & 0xFFFF_FFFF) as u32
}

/// The 64-bit word with high half `hi` and low half `lo`.
pub open spec fn join32(hi: u32, lo: u32) -> u64 {
    ((hi as u64) << 32) | (lo as u64)
}

/// `x` rotated left by `k` bits (for `0 < k < 64`).
pub open spec fn rotl64(x: u64, k: u64) -> u64 {
    (x << k) | (x >> ((64 - k) as u64))
}

/// Splitting a word into halves and joining them back is the identity.
pub proof fn lemma_split_join(u: u64)
    ensures
        join32(hi32(u), lo32(u)) == u,
{
    assert(((((u >> 32) as u32) as u64) << 32) | (((u & 0xFFFF_FFFF) as u32) as u64) == u)
        by (bit_vector);
}

/// Joining two halves and splitting the result returns the halves.
pub proof fn lemma_join_split(hi: u32, lo: u32)
    ensures
        hi32(join32(hi, lo)) == hi,
        lo32(join32(hi, lo)) == lo,
{
    assert((((((hi as u64) << 32) | (lo as u64)) >> 32) as u32) == hi) by (bit_vector);
    assert((((((hi as u64) << 32) | (lo as u64)) & 0xFFFF_FFFF) as u32) == lo) by (bit_vector);
}

/// Splits a 64-bit word into `[high half, low half]`.
pub fn u32_from_64(u: u64) -> (r: [u32; 2])
    ensures
        r[0] == hi32(u),
        r[1] == lo32(u),
        u64_from_2_32_spec(r) == u,
{
    let leading_part = u >> 32;
    let trailing_part = (u ^ (leading_part << 32)) as u32;
    proof {
        assert((u ^ ((u >> 32) << 32)) as u32 == (u & 0xFFFF_FFFF) as u32) by (bit_vector);
        lemma_split_join(u);
    }
    [leading_part as u32, trailing_part]
}

/// The word encoded by `[high half, low half]`.
pub open spec fn u64_from_2_32_spec(a: [u32; 2]) -> u64 {
    join32(a[0], a[1])
}

/// Joins `[high half, low half]` back into a 64-bit word.
pub fn u64_from_2_32(a: &[u32; 2]) -> (r: u64)
    ensures
        r == u64_from_2_32_spec(*a),
        hi32(r) == a[0],
        lo32(r) == a[1],
{
    let trailing_part = a[1] as u64;
    let leading_part = (a[0] as u64) << 32;
    proof {
        let hi = a[0];
        let lo = a[1];
        assert(((hi as u64) << 32) + (lo as u64) == ((hi as u64) << 32) | (lo as u64))
            by (bit_vector);
        lemma_join_split(hi, lo);
    }
    trailing_part + leading_part
}

/// Splits each 64-bit word into two 32-bit words, high half first.
pub fn vec_u32_from_64(u_vec: Vec<u64>) -> (r: Vec<u32>)
    requires
        2 * u_vec@.len() <= usize::MAX,
    ensures
        r@.len() == 2 * u_vec@.len(),
        forall|i: int|
            0 <= i < u_vec@.len() ==> r@[2 * i] == hi32(u_vec@[i]) && r@[2 * i + 1] == lo32(
                u_vec@[i],
            ),
{
    let mut out: Vec<u32> = Vec::with_capacity(u_vec.len() * 2);
    let mut idx: usize = 0;
    while idx < u_vec.len()
        invariant
            idx <= u_vec@.len(),
            out@.len() == 2 * idx,
            forall|i: int|
                0 <= i < idx ==> out@[2 * i] == hi32(u_vec@[i]) && out@[2 * i + 1] == lo32(
                    u_vec@[i],
                ),
        decreases u_vec@.len() - idx,
    {
        let u32_arr = u32_from_64(u_vec[idx]);
        out.push(u32_arr[0]);
        out.push(u32_arr[1]);
        idx = idx + 1;
    }
    out
}

/// Joins consecutive pairs of 32-bit words (high half first) into 64-bit words.
/// The input length must be even; on an odd length the original data would be
/// truncated, so such input is rejected by precondition.
pub fn vec_u64_from_2_32(u_vec: Vec<u32>) -> (r: Vec<u64>)
    requires
        u_vec@.len() % 2 == 0,
    ensures
        r@.len() == u_vec@.len() / 2,
        forall|i: int| 0 <= i < r@.len() ==> r@[i] == join32(u_vec@[2 * i], u_vec@[2 * i + 1]),
{
    let mut out: Vec<u64> = Vec::with_capacity(u_vec.len() / 2);
    let mut idx: usize = 0;
    while idx + 1 < u_vec.len()
        invariant
            u_vec@.len() % 2 == 0,
            idx % 2 == 0,
            idx <= u_vec@.len(),
            out@.len() == idx / 2,
            forall|i: int|
                0 <= i < out@.len() ==> out@[i] == join32(u_vec@[2 * i], u_vec@[2 * i + 1]),
        decreases u_vec@.len() - idx,
    {
        let pair: [u32; 2] = [u_vec[idx], u_vec[idx + 1]];
        out.push(u64_from_2_32(&pair));
        idx = idx + 2;
    }
    out
}

/// Rotates `x` left by `k` bits. A rotation by `0` or by `64` or more bits
/// would shift by the full word width, which 64-bit shift hardware does not
/// define, so `k` is restricted to `1..=63`.
pub fn rotl(x: u64, k: u64) -> (r: u64)
    requires
        0 < k < 64,
    ensures
        r == rotl64(x, k),
{
    (x << k) | (x >> (64 - k))
}

} // verus!
