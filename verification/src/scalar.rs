//! Single-precision numbers carried as bit patterns.
//!
//! Coordinates, radii, thresholds and angles pass through this library
//! without any arithmetic being done on them. They are held as the 32 bits of
//! their IEEE-754 binary32 encoding, which keeps them exact, and the few
//! questions the library asks of them (is it a number, is it above zero,
//! which of two is smaller) are answered on the bits.

use vstd::prelude::*;

verus! {

/// The sign bit of a binary32 pattern.
pub const SIGN_BIT: u32 = 0x8000_0000;

/// The pattern of positive infinity; magnitudes above it are not numbers.
pub const INFINITY_BITS: u32 = 0x7f80_0000;

/// A single-precision number, held as its binary32 bit pattern.
///
/// Equality on `Scalar` is equality of patterns: two NaNs with the same
/// payload are equal, and `0.0` differs from `-0.0`. Numeric comparison is
/// [`Scalar::lt`] and [`Scalar::le`].
#[derive(Clone, Copy, Debug, PartialEq, Eq, Structural)]
pub struct Scalar {
    pub bits: u32,
}

impl Scalar {
    /// The pattern without its sign bit.
    pub open spec fn magnitude(self) -> int {
        if self.bits >= SIGN_BIT {
            self.bits - SIGN_BIT
        } else {
            self.bits as int
        }
    }

    /// Whether the sign bit is set.
    pub open spec fn sign(self) -> bool {
        self.bits >= SIGN_BIT
    }

    /// Whether the pattern encodes no number (a NaN).
    pub open spec fn nan(self) -> bool {
        self.magnitude() > INFINITY_BITS
    }

    /// The place of a number on the integer line: binary32 is
    /// sign-magnitude, so the magnitudes order the non-negative numbers and,
    /// reversed, the negative ones. Both zeros have place 0.
    pub open spec fn place(self) -> int {
        if self.sign() {
            -self.magnitude()
        } else {
            self.magnitude()
        }
    }

    /// Numeric `<`: false as soon as either side is a NaN.
    pub open spec fn less(self, other: Scalar) -> bool {
        !self.nan() && !other.nan() && self.place() < other.place()
    }

    /// Numeric `<=`: false as soon as either side is a NaN.
    pub open spec fn less_eq(self, other: Scalar) -> bool {
        !self.nan() && !other.nan() && self.place() <= other.place()
    }

    /// The key by which values are sorted: the place of a number, and one
    /// key above every number for all NaNs.
    pub open spec fn sort_key(self) -> int {
        if self.nan() {
            INFINITY_BITS + 1
        } else {
            self.place()
        }
    }

    /// The number with the given pattern.
    pub fn from_bits(bits: u32) -> (r: Scalar)
        ensures
            r.bits == bits,
    {
        Scalar { bits }
    }

    /// The pattern of this number.
    pub fn to_bits(self) -> (bits: u32)
        ensures
            bits == self.bits,
    {
        self.bits
    }

    /// Positive zero.
    pub fn zero() -> (r: Scalar)
        ensures
            r.bits == 0,
    {
        Scalar { bits: 0 }
    }

    /// Whether the pattern encodes no number.
    pub fn is_nan(self) -> (r: bool)
        ensures
            r == self.nan(),
    {
        let magnitude: u32 = if self.bits >= SIGN_BIT {
            self.bits - SIGN_BIT
        } else {
            self.bits
        };
        magnitude > INFINITY_BITS
    }

    /// The sort key as a machine integer.
    pub fn key(self) -> (k: i64)
        ensures
            k == self.sort_key(),
            -(INFINITY_BITS as int) <= k <= INFINITY_BITS + 1,
    {
        if self.bits >= SIGN_BIT {
            let magnitude: u32 = self.bits - SIGN_BIT;
            if magnitude > INFINITY_BITS {
                INFINITY_BITS as i64 + 1
            } else {
                -(magnitude as i64)
            }
        } else if self.bits > INFINITY_BITS {
            INFINITY_BITS as i64 + 1
        } else {
            self.bits as i64
        }
    }

    /// Numeric `self < other`.
    pub fn lt(self, other: Scalar) -> (r: bool)
        ensures
            r == self.less(other),
    {
        !self.is_nan() && !other.is_nan() && self.key() < other.key()
    }

    /// Numeric `self <= other`.
    pub fn le(self, other: Scalar) -> (r: bool)
        ensures
            r == self.less_eq(other),
    {
        !self.is_nan() && !other.is_nan() && self.key() <= other.key()
    }

    /// Whether the number is strictly above zero.
    pub fn is_positive(self) -> (r: bool)
        ensures
            r == (Scalar { bits: 0 }).less(self),
            r == (0 < self.bits <= INFINITY_BITS),
    {
        0 < self.bits && self.bits <= INFINITY_BITS
    }

    /// Whether the number is strictly below zero.
    pub fn is_negative(self) -> (r: bool)
        ensures
            r == self.less((Scalar { bits: 0 })),
            r == (SIGN_BIT < self.bits <= SIGN_BIT + INFINITY_BITS),
    {
        SIGN_BIT < self.bits && self.bits - SIGN_BIT <= INFINITY_BITS
    }
}

/// `<` is irreflexive and transitive, and `<=` is `<` or the same place.
pub proof fn lemma_less_is_strict_order(a: Scalar, b: Scalar, c: Scalar)
    ensures
        !a.less(a),
        a.less(b) && b.less(c) ==> a.less(c),
        a.less(b) ==> !b.less(a),
        a.less_eq(b) <==> (a.less(b) || (!a.nan() && !b.nan() && a.place() == b.place())),
{
}

/// Two numbers are ordered by their sort keys exactly as by `<`.
pub proof fn lemma_sort_key_agrees(a: Scalar, b: Scalar)
    requires
        !a.nan(),
        !b.nan(),
    ensures
        a.less(b) <==> a.sort_key() < b.sort_key(),
{
}

} // verus!
