//! The pseudorandom stream behind the stochastic array operations.
//!
//! A xoshiro256++ generator: 256 bits of state, a `next` step producing one
//! 64-bit word, and a `jump` operation that advances the stream by a fixed
//! large stride (2^128 steps). Jumping `i` times from one root seed yields
//! the stream of chunk `i`; the strides are so large that the consumption
//! windows of distinct chunks cannot overlap. Every step is deterministic
//! and fully specified, which is what makes the seeded transform variant
//! bit-reproducible. Seeds come either from the caller (reproducible runs)
//! or from the operating system's entropy source (throughput runs).

use vstd::prelude::*;

use crate::words::join32;
use crate::words::rotl64;
use crate::words::rotl;
use crate::words::u64_from_2_32;

verus! {

/// First word of the jump polynomial of xoshiro256++.
pub const JUMP_0: u64 = 0x180ec6d33cfd0aba;

/// Second word of the jump polynomial of xoshiro256++.
pub const JUMP_1: u64 = 0xd5a61266f0c9392c;

/// Third word of the jump polynomial of xoshiro256++.
pub const JUMP_2: u64 = 0xa9582618e03fc9aa;

/// Fourth word of the jump polynomial of xoshiro256++.
pub const JUMP_3: u64 = 0x39abdc4529b1661c;

/// A xoshiro256++ pseudorandom stream: four 64-bit words of state.
#[derive(Clone, Copy, Debug, PartialEq, Eq, Structural)]
pub struct Xoshiro256pp {
    pub s0: u64,
    pub s1: u64,
    pub s2: u64,
    pub s3: u64,
}

/// The state built from a 256-bit seed given as eight 32-bit words:
/// consecutive pairs form the state words, high half first.
pub open spec fn seed_state(seed: [u32; 8]) -> Xoshiro256pp {
    Xoshiro256pp {
        s0: join32(seed[0], seed[1]),
        s1: join32(seed[2], seed[3]),
        s2: join32(seed[4], seed[5]),
        s3: join32(seed[6], seed[7]),
    }
}

/// The word that one `next` step of state `g` produces.
pub open spec fn next_out(g: Xoshiro256pp) -> u64 {
    rotl64(g.s0.wrapping_add(g.s3), 23).wrapping_add(g.s0)
}

/// The state after one `next` step of state `g`.
pub open spec fn next_state(g: Xoshiro256pp) -> Xoshiro256pp {
    let t = g.s1 << 17;
    let s2a = g.s2 ^ g.s0;
    let s3a = g.s3 ^ g.s1;
    let s1a = g.s1 ^ s2a;
    let s0a = g.s0 ^ s3a;
    let s2b = s2a ^ t;
    let s3b = rotl64(s3a, 45);
    Xoshiro256pp { s0: s0a, s1: s1a, s2: s2b, s3: s3b }
}

/// The all-zero state, the starting accumulator of a jump.
pub open spec fn zero_state() -> Xoshiro256pp {
    Xoshiro256pp { s0: 0, s1: 0, s2: 0, s3: 0 }
}

/// The wordwise exclusive or of two states.
pub open spec fn xor_state(a: Xoshiro256pp, b: Xoshiro256pp) -> Xoshiro256pp {
    Xoshiro256pp { s0: a.s0 ^ b.s0, s1: a.s1 ^ b.s1, s2: a.s2 ^ b.s2, s3: a.s3 ^ b.s3 }
}

/// Word `w` of the jump polynomial.
pub open spec fn jump_word(w: int) -> u64 {
    if w == 0 {
        JUMP_0
    } else if w == 1 {
        JUMP_1
    } else if w == 2 {
        JUMP_2
    } else {
        JUMP_3
    }
}

/// The jump accumulation from step `step` on: for each of the 256 bits of
/// the jump polynomial, the current state is folded into the accumulator
/// when the bit is set, and the state is stepped once; after all bits, the
/// accumulator is the jumped state.
pub open spec fn jump_from(g: Xoshiro256pp, acc: Xoshiro256pp, step: nat) -> Xoshiro256pp
    decreases 256 - step,
{
    if step >= 256 {
        acc
    } else {
        let w = jump_word(step as int / 64);
        let b = (step % 64) as u64;
        let acc2 = if (w >> b) & 1 == 1 {
            xor_state(acc, g)
        } else {
            acc
        };
        jump_from(next_state(g), acc2, step + 1)
    }
}

/// The state reached from `g` by one jump: as if 2^128 `next` steps had run.
pub open spec fn jump_state(g: Xoshiro256pp) -> Xoshiro256pp {
    jump_from(g, zero_state(), 0)
}

/// The stream of chunk `i`: the root state jumped `i` times.
pub open spec fn chunk_stream(g: Xoshiro256pp, i: nat) -> Xoshiro256pp
    decreases i,
{
    if i == 0 {
        g
    } else {
        jump_state(chunk_stream(g, (i - 1) as nat))
    }
}

/// Jumping first and counting one jump less reaches the same stream: the
/// stream of chunk `i` from root `g` is the stream of chunk `i - 1` from
/// the jumped root.
pub proof fn lemma_chunk_stream_shift(g: Xoshiro256pp, i: nat)
    requires
        1 <= i,
    ensures
        chunk_stream(g, i) == chunk_stream(jump_state(g), (i - 1) as nat),
    decreases i,
{
    if i == 1 {
        assert(chunk_stream(g, 1) == jump_state(chunk_stream(g, 0)));
        assert(chunk_stream(jump_state(g), 0) == jump_state(g));
    } else {
        lemma_chunk_stream_shift(g, (i - 1) as nat);
        assert(chunk_stream(g, i) == jump_state(chunk_stream(g, (i - 1) as nat)));
        assert(chunk_stream(jump_state(g), (i - 1) as nat) == jump_state(
            chunk_stream(jump_state(g), (i - 2) as nat),
        ));
    }
}

impl Xoshiro256pp {
    /// Builds the stream state from a 256-bit seed given as eight 32-bit
    /// words, consecutive pairs forming one state word, high half first.
    pub fn from_seed(seed: &[u32; 8]) -> (g: Self)
        ensures
            g == seed_state(*seed),
    {
        let s0 = u64_from_2_32(&[seed[0], seed[1]]);
        let s1 = u64_from_2_32(&[seed[2], seed[3]]);
        let s2 = u64_from_2_32(&[seed[4], seed[5]]);
        let s3 = u64_from_2_32(&[seed[6], seed[7]]);
        Xoshiro256pp { s0, s1, s2, s3 }
    }

    /// Draws the next 64-bit word and advances the state by one step.
    pub fn next(&mut self) -> (r: u64)
        ensures
            r == next_out(*old(self)),
            *final (self) == next_state(*old(self)),
    {
        let result = rotl(self.s0.wrapping_add(self.s3), 23).wrapping_add(self.s0);
        let t = self.s1 << 17;
        self.s2 = self.s2 ^ self.s0;
        self.s3 = self.s3 ^ self.s1;
        self.s1 = self.s1 ^ self.s2;
        self.s0 = self.s0 ^ self.s3;
        self.s2 = self.s2 ^ t;
        self.s3 = rotl(self.s3, 45);
        result
    }

    /// Advances the state as if 2^128 `next` steps had run, without running
    /// them: the derivation of disjoint per-chunk sub-streams.
    pub fn jump(&mut self) -> (r: ())
        ensures
            *final (self) == jump_state(*old(self)),
    {
        let ghost g0 = *self;
        let jw: [u64; 4] = [JUMP_0, JUMP_1, JUMP_2, JUMP_3];
        let mut acc = Xoshiro256pp { s0: 0, s1: 0, s2: 0, s3: 0 };
        let mut step: usize = 0;
        while step < 256
            invariant
                step <= 256,
                jw[0] == JUMP_0 && jw[1] == JUMP_1 && jw[2] == JUMP_2 && jw[3] == JUMP_3,
                jump_from(g0, zero_state(), 0) == jump_from(*self, acc, step as nat),
            decreases 256 - step,
        {
            let w = jw[step / 64];
            assert(w == jump_word(step as int / 64));
            let b = (step % 64) as u64;
            if (w >> b) & 1 == 1 {
                acc = Xoshiro256pp {
                    s0: acc.s0 ^ self.s0,
                    s1: acc.s1 ^ self.s1,
                    s2: acc.s2 ^ self.s2,
                    s3: acc.s3 ^ self.s3,
                };
            }
            let _drawn = self.next();
            step = step + 1;
        }
        *self = acc;
    }
}

/// Relies on rand's `OsRng` (re-exported by ndarray_rand): eight 32-bit words
/// drawn from the operating system's entropy source. Nothing is promised of
/// the values; two calls are unrelated.
#[verifier::external_body]
pub(crate) fn os_seed() -> (r: [u32; 8]) {
    ndarray_rand::rand::Rng::gen(&mut ndarray_rand::rand::rngs::OsRng)
}

} // verus!
