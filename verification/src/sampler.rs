//! Per-element random draws: binomial thinning and Poisson counts.
//!
//! A draw from Binomial(n, 1/2) is, by definition, the number of successes
//! among `n` independent fair coin flips. The sampler therefore takes `n`
//! fresh bits from the pseudorandom stream (one 64-bit word at a time) and
//! counts the ones; the count is exact, fully deterministic in the stream
//! state, and never exceeds `n`.

use vstd::prelude::*;

use crate::rng::Xoshiro256pp;
use crate::rng::next_out;
use crate::rng::next_state;

verus! {

/// 1 when bit `b` of `x` is set, else 0 (for `b < 64`).
pub open spec fn bit_at(x: u64, b: nat) -> nat {
    if (x >> (b as u64)) & 1 == 1 {
        1
    } else {
        0
    }
}

/// The number of set bits among the low `k` bits of `x` (for `k <= 64`).
pub open spec fn ones_low(x: u64, k: nat) -> nat
    decreases k,
{
    if k == 0 {
        0
    } else {
        ones_low(x, (k - 1) as nat) + bit_at(x, (k - 1) as nat)
    }
}

/// At most `k` of the low `k` bits are set.
pub proof fn lemma_ones_low_le(x: u64, k: nat)
    ensures
        ones_low(x, k) <= k,
    decreases k,
{
    if k > 0 {
        lemma_ones_low_le(x, (k - 1) as nat);
    }
}

/// Counts the set bits among the low `k` bits of `x`.
pub fn count_ones_low(x: u64, k: u32) -> (r: u32)
    requires
        k <= 64,
    ensures
        r == ones_low(x, k as nat),
        r <= k,
{
    let mut r: u32 = 0;
    let mut b: u32 = 0;
    while b < k
        invariant
            b <= k <= 64,
            r == ones_low(x, b as nat),
            r <= b,
        decreases k - b,
    {
        let w = (x >> (b as u64)) & 1;
        assert((x >> (b as u64)) & 1 == 0 || (x >> (b as u64)) & 1 == 1) by (bit_vector);
        r = r + (w as u32);
        b = b + 1;
    }
    r
}

/// The value of a Binomial(n, 1/2) draw from stream state `g`: the number of
/// set bits among `n` fresh stream bits, taken one 64-bit word at a time.
pub open spec fn binom_out(g: Xoshiro256pp, n: nat) -> nat
    decreases n,
{
    if n == 0 {
        0
    } else if n >= 64 {
        ones_low(next_out(g), 64) + binom_out(next_state(g), (n - 64) as nat)
    } else {
        ones_low(next_out(g), n)
    }
}

/// The stream state after a Binomial(n, 1/2) draw from state `g`.
pub open spec fn binom_state(g: Xoshiro256pp, n: nat) -> Xoshiro256pp
    decreases n,
{
    if n == 0 {
        g
    } else if n >= 64 {
        binom_state(next_state(g), (n - 64) as nat)
    } else {
        next_state(g)
    }
}

/// A Binomial(n, 1/2) draw never exceeds the number of trials.
pub proof fn lemma_binom_out_le(g: Xoshiro256pp, n: nat)
    ensures
        binom_out(g, n) <= n,
    decreases n,
{
    if n == 0 {
    } else if n >= 64 {
        lemma_ones_low_le(next_out(g), 64);
        lemma_binom_out_le(next_state(g), (n - 64) as nat);
    } else {
        lemma_ones_low_le(next_out(g), n);
    }
}

/// Draws from Binomial(n, 1/2): counts the successes among `n` independent
/// fair coin flips taken from the stream, consuming one stream word per 64
/// trials.
pub fn binom_draw(g: &mut Xoshiro256pp, n: u32) -> (r: u32)
    ensures
        r == binom_out(*old(g), n as nat),
        r <= n,
        *final (g) == binom_state(*old(g), n as nat),
{
    let ghost g0 = *g;
    let mut remaining: u32 = n;
    let mut r: u32 = 0;
    while remaining >= 64
        invariant
            r + binom_out(*g, remaining as nat) == binom_out(g0, n as nat),
            binom_state(*g, remaining as nat) == binom_state(g0, n as nat),
            r <= n - remaining,
        decreases remaining,
    {
        let w = g.next();
        let c = count_ones_low(w, 64);
        r = r + c;
        remaining = remaining - 64;
    }
    if remaining > 0 {
        let w = g.next();
        let c = count_ones_low(w, remaining);
        r = r + c;
    }
    proof {
        lemma_binom_out_le(g0, n as nat);
    }
    r
}

} // verus!
