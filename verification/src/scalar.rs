//! Real numbers as they travel in messages: IEEE 754 binary64 values held by
//! their bit patterns. The library carries them, compares them and never does
//! arithmetic with them.

use vstd::prelude::*;

verus! {

/// The sign bit of a binary64 bit pattern.
pub const SIGN_BIT: u64 = 0x8000_0000_0000_0000;

/// The bit pattern of positive infinity: every exponent bit set, no fraction bit.
pub const INFINITY_BITS: u64 = 0x7ff0_0000_0000_0000;

/// A binary64 number, held by its bit pattern.
#[derive(Clone, Copy, Debug, PartialEq, Eq, Structural)]
pub struct Scalar {
    pub bits: u64,
}

/// A complex number, held by the bit patterns of its two parts.
#[derive(Clone, Copy, Debug, PartialEq, Eq, Structural)]
pub struct Complex {
    pub re: Scalar,
    pub im: Scalar,
}

impl Scalar {
    /// The bit pattern without its sign bit.
    pub open spec fn spec_magnitude(self) -> u64 {
        if self.bits >= SIGN_BIT {
            (self.bits - SIGN_BIT) as u64
        } else {
            self.bits
        }
    }

    /// Whether the sign bit is set. It is set for negative numbers and for
    /// negative zero.
    pub open spec fn spec_is_sign_negative(self) -> bool {
        self.bits >= SIGN_BIT
    }

    /// Whether the pattern is one of the not-a-number patterns.
    pub open spec fn spec_is_nan(self) -> bool {
        self.spec_magnitude() > INFINITY_BITS
    }

    /// Whether the pattern is a number other than an infinity.
    pub open spec fn spec_is_finite(self) -> bool {
        self.spec_magnitude() < INFINITY_BITS
    }

    /// The place of a number in the order of all numbers: the magnitude bits,
    /// negated where the sign bit is set. Both zeros have place 0.
    pub open spec fn rank(self) -> int {
        if self.spec_is_sign_negative() {
            -(self.spec_magnitude() as int)
        } else {
            self.spec_magnitude() as int
        }
    }

    /// Whether `self` is less than `other` as binary64 numbers. Nothing is
    /// less than, or greater than, a not-a-number.
    pub open spec fn spec_lt(self, other: Scalar) -> bool {
        !self.spec_is_nan() && !other.spec_is_nan() && self.rank() < other.rank()
    }

    /// The number with the given bit pattern.
    pub fn from_bits(bits: u64) -> (s: Scalar)
        ensures
            s.bits == bits,
    {
        Scalar { bits }
    }

    /// The bit pattern of the number.
    pub fn to_bits(self) -> (bits: u64)
        ensures
            bits == self.bits,
    {
        self.bits
    }

    #[verifier::when_used_as_spec(spec_magnitude)]
    pub fn magnitude(self) -> (m: u64)
        ensures
            m == self.spec_magnitude(),
    {
        if self.bits >= SIGN_BIT {
            self.bits - SIGN_BIT
        } else {
            self.bits
        }
    }

    #[verifier::when_used_as_spec(spec_is_sign_negative)]
    pub fn is_sign_negative(self) -> (b: bool)
        ensures
            b == self.spec_is_sign_negative(),
    {
        self.bits >= SIGN_BIT
    }

    #[verifier::when_used_as_spec(spec_is_nan)]
    pub fn is_nan(self) -> (b: bool)
        ensures
            b == self.spec_is_nan(),
    {
        self.magnitude() > INFINITY_BITS
    }

    #[verifier::when_used_as_spec(spec_is_finite)]
    pub fn is_finite(self) -> (b: bool)
        ensures
            b == self.spec_is_finite(),
    {
        self.magnitude() < INFINITY_BITS
    }

    /// Compares two numbers as binary64 does.
    #[verifier::when_used_as_spec(spec_lt)]
    pub fn lt(self, other: Scalar) -> (b: bool)
        ensures
            b == self.spec_lt(other),
    {
        if self.is_nan() || other.is_nan() {
            return false;
        }
        let a: u64 = self.magnitude();
        let b: u64 = other.magnitude();
        if self.is_sign_negative() {
            if other.is_sign_negative() {
                a > b
            } else {
                a > 0 || b > 0
            }
        } else {
            if other.is_sign_negative() {
                false
            } else {
                a < b
            }
        }
    }
}

impl Complex {
    /// The complex number with the given real and imaginary parts.
    pub fn new(re: Scalar, im: Scalar) -> (c: Complex)
        ensures
            c.re == re,
            c.im == im,
    {
        Complex { re, im }
    }
}

/// No number is less than itself, and of two numbers at most one is less than
/// the other.
pub proof fn lt_is_strict(a: Scalar, b: Scalar)
    ensures
        !a.spec_lt(a),
        !(a.spec_lt(b) && b.spec_lt(a)),
{
}

/// The order of numbers is transitive.
pub proof fn lt_is_transitive(a: Scalar, b: Scalar, c: Scalar)
    requires
        a.spec_lt(b),
        b.spec_lt(c),
    ensures
        a.spec_lt(c),
{
}

} // verus!
