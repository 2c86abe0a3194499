//! The Fibonacci lattice: how far the spiral keeps from the poles.
//!
//! Seed points are laid along a golden-angle spiral. Point `i` of `n` has
//! the latitude `1 - 2 (i + e) / (n - 1 + 2 e)` as the cosine of its polar
//! angle, where the offset `e` keeps the first and last points off the
//! poles. The larger the lattice, the larger the offset that spreads the
//! points most evenly.

use vstd::prelude::*;
use crate::scalar::Scalar;

verus! {

/// The pattern of 0.33, the offset for fewer than 24 points.
pub const EPSILON_UNDER_24: u32 = 0x3ea8_f5c3;

/// The pattern of 1.33, the offset for 24 to 176 points.
pub const EPSILON_UNDER_177: u32 = 0x3faa_3d71;

/// The pattern of 3.33, the offset for 177 to 889 points.
pub const EPSILON_UNDER_890: u32 = 0x4055_1eb8;

/// The pattern of 10, the offset for 890 to 10999 points.
pub const EPSILON_UNDER_11000: u32 = 0x4120_0000;

/// The pattern of 27.5, the offset for 11000 points and more.
pub const EPSILON_FROM_11000: u32 = 0x41dc_0000;

/// The pole offset for a lattice of `n` points.
pub open spec fn epsilon(n: usize) -> Scalar {
    if n < 24 {
        Scalar { bits: EPSILON_UNDER_24 }
    } else if n < 177 {
        Scalar { bits: EPSILON_UNDER_177 }
    } else if n < 890 {
        Scalar { bits: EPSILON_UNDER_890 }
    } else if n < 11000 {
        Scalar { bits: EPSILON_UNDER_11000 }
    } else {
        Scalar { bits: EPSILON_FROM_11000 }
    }
}

/// The pole offset for a lattice of `n` points.
pub fn get_epsilon(n: usize) -> (offset: Scalar)
    ensures
        offset == epsilon(n),
{
    if n < 24 {
        Scalar { bits: EPSILON_UNDER_24 }
    } else if n < 177 {
        Scalar { bits: EPSILON_UNDER_177 }
    } else if n < 890 {
        Scalar { bits: EPSILON_UNDER_890 }
    } else if n < 11000 {
        Scalar { bits: EPSILON_UNDER_11000 }
    } else {
        Scalar { bits: EPSILON_FROM_11000 }
    }
}

/// A larger lattice never has a smaller offset, and every offset is a
/// number above zero.
pub proof fn lemma_epsilon_grows(smaller: usize, larger: usize)
    requires
        smaller <= larger,
    ensures
        epsilon(smaller).less_eq(epsilon(larger)),
        (Scalar { bits: 0 }).less(epsilon(smaller)),
{
}

} // verus!
