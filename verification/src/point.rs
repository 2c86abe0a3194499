//! Points in space.

use vstd::prelude::*;
use crate::scalar::Scalar;

verus! {

/// A point in space, or a direction from the centre of the sphere: three
/// coordinates, each carried as a [`Scalar`].
#[derive(Clone, Copy, Debug, PartialEq, Eq, Structural)]
pub struct Point3 {
    pub x: Scalar,
    pub y: Scalar,
    pub z: Scalar,
}

impl Point3 {
    /// The point with the given coordinates.
    pub fn new(x: Scalar, y: Scalar, z: Scalar) -> (p: Point3)
        ensures
            p.x == x,
            p.y == y,
            p.z == z,
    {
        Point3 { x, y, z }
    }

    /// The point whose coordinates have the given bit patterns.
    pub fn from_bits(x: u32, y: u32, z: u32) -> (p: Point3)
        ensures
            p.x.bits == x,
            p.y.bits == y,
            p.z.bits == z,
    {
        Point3 { x: Scalar { bits: x }, y: Scalar { bits: y }, z: Scalar { bits: z } }
    }

    /// The bit patterns of the three coordinates.
    pub fn to_bits(self) -> (bits: [u32; 3])
        ensures
            bits[0] == self.x.bits,
            bits[1] == self.y.bits,
            bits[2] == self.z.bits,
    {
        [self.x.bits, self.y.bits, self.z.bits]
    }
}

} // verus!
