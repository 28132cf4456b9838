use vstd::prelude::*;

verus! {

/// Bit pattern of positive infinity. A pattern with a clear sign bit stands for
/// a finite value exactly when it lies below this one.
pub const POSITIVE_INFINITY_BITS: u64 = 0x7FF0_0000_0000_0000;

/// Bit pattern of the value one.
pub const ONE_BITS: u64 = 0x3FF0_0000_0000_0000;

/// An IEEE-754 binary64 value, held as its bit pattern.
///
/// Among patterns with a clear sign bit, the order of the patterns is the
/// order of the values they stand for, so range tests on non-negative values
/// are integer comparisons.
#[derive(Clone, Copy, Debug, PartialEq, Eq, Structural)]
pub struct Binary64 {
    pub bits: u64,
}

impl Binary64 {
    /// The value is finite and strictly greater than zero.
    pub open spec fn spec_is_positive(self) -> bool {
        0 < self.bits < POSITIVE_INFINITY_BITS
    }

    /// The value lies strictly between zero and one.
    pub open spec fn spec_is_fraction(self) -> bool {
        0 < self.bits < ONE_BITS
    }

    pub fn is_positive(&self) -> (r: bool)
        ensures
            r == self.spec_is_positive(),
    {
        0 < self.bits && self.bits < POSITIVE_INFINITY_BITS
    }

    pub fn is_fraction(&self) -> (r: bool)
        ensures
            r == self.spec_is_fraction(),
    {
        0 < self.bits && self.bits < ONE_BITS
    }
}

} // verus!
