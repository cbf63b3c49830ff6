//! Numbers: IEEE-754 double-precision values, held as their 64 bits.
//!
//! Equality, ordering and negation are decided here, on the bits. Arithmetic
//! and conversion to and from decimal text are not: the interpreter asks its
//! host for those.

use vstd::prelude::*;

verus! {

/// A double-precision number, as its IEEE-754 bit pattern: the sign in the
/// top bit, then eleven bits of exponent and fifty-two of fraction.
#[derive(Debug, Clone, Copy, PartialEq, Eq, Structural)]
pub struct Number {
    pub bits: u64,
}

/// The bit that holds the sign.
pub const SIGN: u64 = 0x8000_0000_0000_0000;

/// The bits that hold exponent and fraction.
pub const MAGNITUDE: u64 = 0x7fff_ffff_ffff_ffff;

/// The magnitude of positive infinity. Every larger magnitude is a NaN.
pub const INFINITY: u64 = 0x7ff0_0000_0000_0000;

impl Number {
    /// Exponent and fraction, without the sign. Among numbers that are not
    /// NaN, a larger magnitude is a larger absolute value.
    pub open spec fn magnitude(self) -> u64 {
        self.bits & MAGNITUDE
    }

    /// Whether the sign bit is set.
    pub open spec fn negative(self) -> bool {
        self.bits & SIGN != 0
    }

    /// Whether this is not a number.
    pub open spec fn is_nan(self) -> bool {
        self.magnitude() > INFINITY
    }

    /// The place of a number that is not NaN in the order of the numbers:
    /// its magnitude, negated under a set sign. Both zeros have place 0.
    pub open spec fn place(self) -> int {
        if self.negative() {
            -(self.magnitude() as int)
        } else {
            self.magnitude() as int
        }
    }

    /// IEEE-754 equality: a NaN equals nothing, not even itself, and the two
    /// zeros are equal.
    pub open spec fn equal(self, other: Number) -> bool {
        !self.is_nan() && !other.is_nan() && self.place() == other.place()
    }

    /// IEEE-754 `<`: false whenever either side is a NaN.
    pub open spec fn less(self, other: Number) -> bool {
        !self.is_nan() && !other.is_nan() && self.place() < other.place()
    }

    /// The number with its sign flipped; a NaN stays a NaN.
    pub open spec fn negated(self) -> Number {
        Number { bits: self.bits ^ SIGN }
    }

    /// Whether this is not a number.
    pub fn nan(self) -> (r: bool)
        ensures
            r == self.is_nan(),
    {
        self.bits & MAGNITUDE > INFINITY
    }

    /// The place of a number in the order of the numbers.
    fn rank(self) -> (r: i128)
        ensures
            r == self.place(),
    {
        let magnitude: u64 = self.bits & MAGNITUDE;
        if self.bits & SIGN != 0 {
            -(magnitude as i128)
        } else {
            magnitude as i128
        }
    }

    /// `self == other`, as IEEE-754 defines it.
    pub fn equals(self, other: Number) -> (r: bool)
        ensures
            r == self.equal(other),
    {
        !self.nan() && !other.nan() && self.rank() == other.rank()
    }

    /// `self < other`, as IEEE-754 defines it.
    pub fn less_than(self, other: Number) -> (r: bool)
        ensures
            r == self.less(other),
    {
        !self.nan() && !other.nan() && self.rank() < other.rank()
    }

    /// `self <= other`, as IEEE-754 defines it.
    pub fn at_most(self, other: Number) -> (r: bool)
        ensures
            r == (self.less(other) || self.equal(other)),
    {
        !self.nan() && !other.nan() && self.rank() <= other.rank()
    }

    /// `-self`.
    pub fn negate(self) -> (r: Number)
        ensures
            r == self.negated(),
    {
        Number { bits: self.bits ^ SIGN }
    }
}

} // verus!
