//! Real-valued operation parameters, held as IEEE-754 binary64 bit patterns.
//!
//! The library validates such a parameter by reading its bit pattern: sign,
//! exponent and significand are plain integer fields, so "strictly positive,
//! finite and not NaN" is a decidable property of the 64 bits. The binding
//! layer converts a native double to its bits and back at the boundary.

use vstd::prelude::*;

verus! {

/// Sign bit of a binary64 pattern.
pub const SIGN_MASK: u64 = 0x8000_0000_0000_0000;

/// Exponent field of a binary64 pattern; all ones means infinity or NaN.
pub const EXPONENT_MASK: u64 = 0x7FF0_0000_0000_0000;

/// A real number given as the bit pattern of an IEEE-754 binary64 value.
#[derive(Clone, Copy, Debug, PartialEq, Eq, Structural)]
pub struct RealBits {
    pub bits: u64,
}

impl RealBits {
    /// Wraps a binary64 bit pattern.
    pub fn new(bits: u64) -> (r: RealBits)
        ensures
            r.bits == bits,
    {
        RealBits { bits }
    }

    /// Whether the pattern denotes a strictly positive finite number: the
    /// sign bit is clear, the exponent is not all ones (which would mean
    /// infinity or NaN), and the pattern is not positive zero.
    pub open spec fn is_positive_finite(self) -> bool {
        self.bits & SIGN_MASK == 0 && self.bits & EXPONENT_MASK != EXPONENT_MASK && self.bits != 0
    }

    /// Decides whether the pattern denotes a strictly positive finite number.
    pub fn positive_finite(&self) -> (r: bool)
        ensures
            r == self.is_positive_finite(),
    {
        self.bits & SIGN_MASK == 0 && self.bits & EXPONENT_MASK != EXPONENT_MASK && self.bits != 0
    }
}

} // verus!
