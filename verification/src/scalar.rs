//! Real numbers carried by their IEEE-754 binary64 bit pattern.
//!
//! The engine stores and moves such numbers and compares them; it never does
//! arithmetic on them. Whatever needs arithmetic is computed by the host and
//! handed in as a finished value.

use vstd::prelude::*;

verus! {

/// The sign bit of a binary64 pattern.
pub const SIGN_BIT: u64 = 0x8000_0000_0000_0000;

/// The pattern of positive infinity; larger magnitudes are not numbers.
pub const INFINITY_BITS: u64 = 0x7ff0_0000_0000_0000;

/// The pattern of one.
pub const ONE_BITS: u64 = 0x3ff0_0000_0000_0000;

/// The pattern of minus sixteen.
pub const MINUS_SIXTEEN_BITS: u64 = 0xc030_0000_0000_0000;

/// A binary64 number, held by its 64-bit pattern.
#[derive(Clone, Copy, Debug, PartialEq, Eq, Structural)]
pub struct Real {
    pub bits: u64,
}

impl Real {
    /// Whether the sign bit is set.
    pub open spec fn negative(self) -> bool {
        self.bits >= SIGN_BIT
    }

    /// The pattern without its sign bit, as a number.
    pub open spec fn magnitude(self) -> int {
        if self.negative() {
            self.bits - SIGN_BIT
        } else {
            self.bits as int
        }
    }

    /// Whether the pattern is not a number.
    pub open spec fn nan(self) -> bool {
        self.magnitude() > INFINITY_BITS
    }

    /// An integer that orders the numbers as their values are ordered: the
    /// magnitude, negated under a set sign bit. Both zeros have key zero.
    pub open spec fn key(self) -> int {
        if self.negative() {
            -self.magnitude()
        } else {
            self.magnitude()
        }
    }

    /// `self < other` as binary64 comparison: false when either is not a number.
    pub open spec fn lt_spec(self, other: Real) -> bool {
        !self.nan() && !other.nan() && self.key() < other.key()
    }

    /// `self <= other` as binary64 comparison: false when either is not a number.
    pub open spec fn le_spec(self, other: Real) -> bool {
        !self.nan() && !other.nan() && self.key() <= other.key()
    }

    /// `self > other` as binary64 comparison.
    pub open spec fn gt_spec(self, other: Real) -> bool {
        other.lt_spec(self)
    }

    /// `self >= other` as binary64 comparison.
    pub open spec fn ge_spec(self, other: Real) -> bool {
        other.le_spec(self)
    }

    /// The number with its sign bit cleared.
    pub open spec fn abs_spec(self) -> Real {
        Real { bits: self.magnitude() as u64 }
    }

    /// The larger of two numbers; the other one where one is not a number,
    /// and `self` where they compare equal.
    pub open spec fn max_spec(self, other: Real) -> Real {
        if self.nan() {
            other
        } else if other.nan() {
            self
        } else if self.lt_spec(other) {
            other
        } else {
            self
        }
    }

    /// Positive zero.
    pub open spec fn zero_spec() -> Real {
        Real { bits: 0 }
    }

    /// The number with the given pattern.
    pub fn from_bits(bits: u64) -> (r: Real)
        ensures
            r.bits == bits,
    {
        Real { bits }
    }

    /// The pattern of the number.
    pub fn to_bits(self) -> (bits: u64)
        ensures
            bits == self.bits,
    {
        self.bits
    }

    /// Positive zero.
    pub fn zero() -> (r: Real)
        ensures
            r == Real::zero_spec(),
    {
        Real { bits: 0 }
    }

    /// One.
    pub fn one() -> (r: Real)
        ensures
            r.bits == ONE_BITS,
    {
        Real { bits: ONE_BITS }
    }

    /// Minus sixteen.
    pub fn minus_sixteen() -> (r: Real)
        ensures
            r.bits == MINUS_SIXTEEN_BITS,
    {
        Real { bits: MINUS_SIXTEEN_BITS }
    }

    fn magnitude_bits(self) -> (m: u64)
        ensures
            m == self.magnitude(),
            m < SIGN_BIT,
    {
        if self.bits >= SIGN_BIT {
            self.bits - SIGN_BIT
        } else {
            self.bits
        }
    }

    fn order_key(self) -> (k: i64)
        ensures
            k == self.key(),
    {
        let m: u64 = self.magnitude_bits();
        if self.bits >= SIGN_BIT {
            -(m as i64)
        } else {
            m as i64
        }
    }

    /// Whether the pattern is not a number.
    pub fn is_nan(self) -> (r: bool)
        ensures
            r == self.nan(),
    {
        self.magnitude_bits() > INFINITY_BITS
    }

    /// `self < other`, as the hardware compares the two numbers.
    pub fn lt(self, other: Real) -> (r: bool)
        ensures
            r == self.lt_spec(other),
    {
        !self.is_nan() && !other.is_nan() && self.order_key() < other.order_key()
    }

    /// `self <= other`, as the hardware compares the two numbers.
    pub fn le(self, other: Real) -> (r: bool)
        ensures
            r == self.le_spec(other),
    {
        !self.is_nan() && !other.is_nan() && self.order_key() <= other.order_key()
    }

    /// `self > other`, as the hardware compares the two numbers.
    pub fn gt(self, other: Real) -> (r: bool)
        ensures
            r == self.gt_spec(other),
    {
        other.lt(self)
    }

    /// `self >= other`, as the hardware compares the two numbers.
    pub fn ge(self, other: Real) -> (r: bool)
        ensures
            r == self.ge_spec(other),
    {
        other.le(self)
    }

    /// The larger of two numbers; the other one where one is not a number.
    pub fn max(self, other: Real) -> (r: Real)
        ensures
            r == self.max_spec(other),
    {
        if self.is_nan() {
            other
        } else if other.is_nan() {
            self
        } else if self.lt(other) {
            other
        } else {
            self
        }
    }

    /// The number with its sign bit cleared.
    pub fn abs(self) -> (r: Real)
        ensures
            r == self.abs_spec(),
            !r.negative(),
            r.nan() == self.nan(),
    {
        Real { bits: self.magnitude_bits() }
    }
}

} // verus!
