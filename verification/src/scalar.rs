//! Single-precision scalars, handled by their IEEE-754 binary32 encoding.
//!
//! The tracer's arithmetic is done by the caller on the machine's own
//! single-precision type. This crate only stores such values, orders them and
//! quantises them, and for that the 32-bit encoding is enough: bit 31 is the
//! sign, bits 30..23 the biased exponent, bits 22..0 the fraction.

use vstd::prelude::*;

verus! {

/// Encoding of positive zero.
pub const ZERO_BITS: u32 = 0;

/// Encoding of one.
pub const ONE_BITS: u32 = 0x3f80_0000;

/// Encoding of the largest finite value.
pub const MAX_BITS: u32 = 0x7f7f_ffff;

/// Encoding of positive infinity. Every larger magnitude is a NaN.
pub const INFINITY_BITS: u32 = 0x7f80_0000;

/// The sign bit alone, which is also the encoding of negative zero.
pub const SIGN_BIT: u32 = 0x8000_0000;

/// A binary32 value, held as its 32-bit encoding.
#[derive(Clone, Copy, Debug)]
pub struct Scalar {
    pub bits: u32,
}

impl Scalar {
    /// Whether the sign bit is set. True of negative zero and of half the NaNs.
    pub open spec fn sign_negative(self) -> bool {
        self.bits >= SIGN_BIT
    }

    /// The encoding with the sign bit cleared.
    pub open spec fn magnitude(self) -> u32 {
        if self.bits >= SIGN_BIT {
            (self.bits - SIGN_BIT) as u32
        } else {
            self.bits
        }
    }

    /// Whether the value is a NaN: all exponent bits set and a fraction that is not zero.
    pub open spec fn nan(self) -> bool {
        self.magnitude() > INFINITY_BITS
    }

    /// The position of a value that is no NaN on the number line, infinities
    /// included: the magnitude's encoding, negated under a sign bit. Both
    /// zeros sit at 0, and two values are ordered as their positions are.
    pub open spec fn key(self) -> int {
        if self.sign_negative() {
            -(self.magnitude() as int)
        } else {
            self.magnitude() as int
        }
    }

    /// The comparison `self < other` of IEEE-754: false as soon as one side
    /// is a NaN, else the order of the two positions.
    pub open spec fn less_than(self, other: Scalar) -> bool {
        &&& !self.nan()
        &&& !other.nan()
        &&& self.key() < other.key()
    }

    pub fn from_bits(bits: u32) -> (r: Scalar)
        ensures
            r == (Scalar { bits }),
    {
        Scalar { bits }
    }

    pub fn to_bits(self) -> (r: u32)
        ensures
            r == self.bits,
    {
        self.bits
    }

    /// Positive zero.
    pub fn zero() -> (r: Scalar)
        ensures
            r == (Scalar { bits: ZERO_BITS }),
    {
        Scalar { bits: ZERO_BITS }
    }

    /// One.
    pub fn one() -> (r: Scalar)
        ensures
            r == (Scalar { bits: ONE_BITS }),
    {
        Scalar { bits: ONE_BITS }
    }

    /// The largest finite value.
    pub fn max_value() -> (r: Scalar)
        ensures
            r == (Scalar { bits: MAX_BITS }),
    {
        Scalar { bits: MAX_BITS }
    }

    pub fn is_sign_negative(self) -> (r: bool)
        ensures
            r == self.sign_negative(),
    {
        self.bits >= SIGN_BIT
    }

    /// The absolute value: the same encoding with the sign bit cleared.
    pub fn abs(self) -> (r: Scalar)
        ensures
            r.bits == self.magnitude(),
            !r.sign_negative(),
            r.nan() == self.nan(),
    {
        if self.bits >= SIGN_BIT {
            Scalar { bits: self.bits - SIGN_BIT }
        } else {
            self
        }
    }

    /// The value with the opposite sign: the same encoding but for the sign
    /// bit.
    pub open spec fn negated(self) -> Scalar {
        Scalar {
            bits: if self.bits >= SIGN_BIT {
                (self.bits - SIGN_BIT) as u32
            } else {
                (self.bits + SIGN_BIT) as u32
            },
        }
    }

    /// The value with the opposite sign.
    pub fn neg(self) -> (r: Scalar)
        ensures
            r == self.negated(),
            r.magnitude() == self.magnitude(),
            r.sign_negative() != self.sign_negative(),
    {
        if self.bits >= SIGN_BIT {
            Scalar { bits: self.bits - SIGN_BIT }
        } else {
            Scalar { bits: self.bits + SIGN_BIT }
        }
    }

    pub fn is_nan(self) -> (r: bool)
        ensures
            r == self.nan(),
    {
        self.abs().bits > INFINITY_BITS
    }

    /// `self < other`, decided on the encodings.
    pub fn lt(self, other: Scalar) -> (r: bool)
        ensures
            r == self.less_than(other),
    {
        if self.is_nan() || other.is_nan() {
            return false;
        }
        let a: u32 = self.abs().bits;
        let b: u32 = other.abs().bits;
        if self.is_sign_negative() {
            if other.is_sign_negative() {
                b < a
            } else {
                a != 0 || b != 0
            }
        } else {
            !other.is_sign_negative() && a < b
        }
    }

    /// A NaN is less than nothing and nothing is less than a NaN.
    pub proof fn lemma_nan_unordered(self, other: Scalar)
        requires
            self.nan() || other.nan(),
        ensures
            !self.less_than(other),
            !other.less_than(self),
    {
    }

    /// The comparison is a strict order: nothing is less than itself, and no
    /// two values are less than each other.
    pub proof fn lemma_less_than_strict(self, other: Scalar)
        ensures
            !self.less_than(self),
            !(self.less_than(other) && other.less_than(self)),
    {
    }

    /// The comparison is transitive.
    pub proof fn lemma_less_than_transitive(self, mid: Scalar, other: Scalar)
        requires
            self.less_than(mid),
            mid.less_than(other),
        ensures
            self.less_than(other),
    {
    }

    /// Of two values that are no NaN, exactly one of three holds: the first
    /// is less, the second is less, or they sit at the same position.
    pub proof fn lemma_less_than_total(self, other: Scalar)
        requires
            !self.nan(),
            !other.nan(),
        ensures
            self.less_than(other) || other.less_than(self) || self.key() == other.key(),
    {
    }

    /// Without sign bits and NaNs the order is that of the encodings.
    pub proof fn lemma_less_than_encodings(self, other: Scalar)
        requires
            self.bits <= INFINITY_BITS,
            other.bits <= INFINITY_BITS,
        ensures
            self.less_than(other) <==> self.bits < other.bits,
    {
    }
}

} // verus!
