//! The lattice hash of the gradient noise that shapes the terrain.

use vstd::arithmetic::div_mod::{
    lemma_fundamental_div_mod, lemma_fundamental_div_mod_converse, lemma_mod_bound,
};
use vstd::prelude::*;

verus! {

/// Ken Perlin's permutation of the numbers 0 to 255.
pub const PERM: [u32; 256] = [
    151, 160, 137, 91, 90, 15, 131, 13, 201, 95, 96, 53, 194, 233, 7, 225, 140, 36, 103, 30, 69,
    142, 8, 99, 37, 240, 21, 10, 23, 190, 6, 148, 247, 120, 234, 75, 0, 26, 197, 62, 94, 252, 219,
    203, 117, 35, 11, 32, 57, 177, 33, 88, 237, 149, 56, 87, 174, 20, 125, 136, 171, 168, 68, 175,
    74, 165, 71, 134, 139, 48, 27, 166, 77, 146, 158, 231, 83, 111, 229, 122, 60, 211, 133, 230,
    220, 105, 92, 41, 55, 46, 245, 40, 244, 102, 143, 54, 65, 25, 63, 161, 1, 216, 80, 73, 209, 76,
    132, 187, 208, 89, 18, 169, 200, 196, 135, 130, 116, 188, 159, 86, 164, 100, 109, 198, 173,
    186, 3, 64, 52, 217, 226, 250, 124, 123, 5, 202, 38, 147, 118, 126, 255, 82, 85, 212, 207, 206,
    59, 227, 47, 16, 58, 17, 182, 189, 28, 42, 223, 183, 170, 213, 119, 248, 152, 2, 44, 154, 163,
    70, 221, 153, 101, 155, 167, 43, 172, 9, 129, 22, 39, 253, 19, 98, 108, 110, 79, 113, 224, 232,
    178, 185, 112, 104, 218, 246, 97, 228, 251, 34, 242, 193, 238, 210, 144, 12, 191, 179, 162,
    241, 81, 51, 145, 235, 249, 14, 239, 107, 49, 192, 214, 31, 181, 199, 106, 157, 184, 84, 204,
    176, 115, 121, 50, 45, 127, 4, 150, 254, 138, 236, 205, 93, 222, 114, 67, 29, 24, 72, 243, 141,
    128, 195, 78, 66, 215, 61, 156, 180,
];

/// The seed, scrambled: one step of a linear congruential generator, of
/// which the upper 16 bits are kept.
pub open spec fn seed_hash(seed: u32) -> u32 {
    (((seed as int * 1103515245 + 12345) % 0x1_0000_0000) as u32) >> 16
}

/// The low byte of a coordinate after it was mixed with part of the seed.
pub open spec fn lattice_byte(coordinate: i32, mask: u32) -> u32 {
    ((coordinate as u32) ^ mask) & 255
}

/// The low byte of a sum.
pub open spec fn low_byte_of_sum(a: u32, b: u32) -> int {
    (a + b) % 256
}

/// The hash of a lattice point: three chained look-ups in the permutation,
/// one for each coordinate.
pub open spec fn lattice_hash(x: i32, y: i32, z: i32, seed: u32) -> u32 {
    let mixed = seed_hash(seed);
    let a = PERM[lattice_byte(x, mixed) as int];
    let b = PERM[low_byte_of_sum(a, lattice_byte(y, mixed >> 8))];
    PERM[low_byte_of_sum(b, lattice_byte(z, mixed >> 16))]
}

/// Multiplying and adding with wrap-around is arithmetic modulo 2^32.
proof fn lemma_scramble_wraps(seed: u32)
    ensures
        seed.wrapping_mul(1103515245).wrapping_add(12345) == ((seed as int * 1103515245 + 12345)
            % 0x1_0000_0000) as u32,
{
    let range = 0x1_0000_0000int;
    let product = seed as int * 1103515245;
    let low = product % range;
    let high = product / range;
    lemma_fundamental_div_mod(product, range);
    lemma_mod_bound(product, range);
    assert(seed.wrapping_mul(1103515245) == low);
    if low + 12345 >= range {
        lemma_fundamental_div_mod_converse(product + 12345, range, high + 1, low + 12345 - range);
    } else {
        lemma_fundamental_div_mod_converse(product + 12345, range, high, low + 12345);
    }
}

/// The hash of a lattice point under a seed.
pub fn hash(x: i32, y: i32, z: i32, seed: u32) -> (h: u32)
    ensures
        h == lattice_hash(x, y, z, seed),
        h < 256,
{
    proof {
        lemma_hash_is_a_byte(x, y, z, seed);
    }
    let mixed = seed.wrapping_mul(1103515245).wrapping_add(12345) >> 16;
    proof {
        lemma_scramble_wraps(seed);
    }
    assert(mixed == seed_hash(seed));
    let ix = ((x as u32) ^ mixed) & 255;
    let iy = ((y as u32) ^ (mixed >> 8)) & 255;
    let iz = ((z as u32) ^ (mixed >> 16)) & 255;
    assert(ix < 256 && iy < 256 && iz < 256) by (bit_vector)
        requires
            ix == ((x as u32) ^ mixed) & 255,
            iy == ((y as u32) ^ (mixed >> 8)) & 255,
            iz == ((z as u32) ^ (mixed >> 16)) & 255,
    ;
    let a = PERM[ix as usize];
    let ja = low_byte(a, iy);
    let b = PERM[ja];
    let jb = low_byte(b, iz);
    PERM[jb]
}

/// The low byte of `a + b`.
fn low_byte(a: u32, b: u32) -> (r: usize)
    requires
        b < 256,
    ensures
        r == low_byte_of_sum(a, b),
        r < 256,
{
    ((a % 256 + b) % 256) as usize
}

/// One of the three coordinate axes.
#[derive(Debug, Clone, Copy, PartialEq, Eq, Structural)]
pub enum Axis {
    X,
    Y,
    Z,
}

/// A gradient direction: one of the edge directions of a cube, as a sum of
/// two signed coordinates.
///
/// The gradient's dot product with an offset `(x, y, z)` is the coordinate
/// on the `first` axis plus the coordinate on the `second` axis, each
/// negated where its flag is set.
#[derive(Debug, Clone, Copy, PartialEq, Eq, Structural)]
pub struct GradientTerms {
    pub first: Axis,
    pub second: Axis,
    pub negate_first: bool,
    pub negate_second: bool,
}

/// The direction that a hash selects, by its lowest four bits `h`: the
/// first axis is x for `h` below 8 and y from there; the second is y for
/// `h` below 4, z for 12 and 14, and x otherwise; the first term is negated
/// for even `h`, the second where bit 1 of `h` is clear.
pub open spec fn terms_of(hash_value: u32) -> GradientTerms {
    let h = hash_value % 16;
    GradientTerms {
        first: if h < 8 {
            Axis::X
        } else {
            Axis::Y
        },
        second: if h < 4 {
            Axis::Y
        } else if h == 12 || h == 14 {
            Axis::Z
        } else {
            Axis::X
        },
        negate_first: h % 2 == 0,
        negate_second: h % 4 < 2,
    }
}

/// The gradient direction that a hash selects.
pub fn gradient_terms(hash_value: u32) -> (terms: GradientTerms)
    ensures
        terms == terms_of(hash_value),
{
    let h = hash_value & 15;
    let low = h & 1;
    let second_bit = h & 2;
    assert(h == hash_value % 16 && (low == 0 <==> h % 2 == 0) && (second_bit == 0 <==> h % 4 < 2))
        by (bit_vector)
        requires
            h == hash_value & 15,
            low == h & 1,
            second_bit == h & 2,
    ;
    GradientTerms {
        first: if h < 8 {
            Axis::X
        } else {
            Axis::Y
        },
        second: if h < 4 {
            Axis::Y
        } else if h == 12 || h == 14 {
            Axis::Z
        } else {
            Axis::X
        },
        negate_first: low == 0,
        negate_second: second_bit == 0,
    }
}

/// Every entry of the permutation is below 256.
pub proof fn lemma_permutation_entries_are_bytes()
    ensures
        forall|i: int| 0 <= i < 256 ==> #[trigger] PERM[i] < 256,
{
}

/// A hash is below 256.
pub proof fn lemma_hash_is_a_byte(x: i32, y: i32, z: i32, seed: u32)
    ensures
        lattice_hash(x, y, z, seed) < 256,
{
    lemma_permutation_entries_are_bytes();
    let mixed = seed_hash(seed);
    let a = PERM[lattice_byte(x, mixed) as int];
    let b = PERM[low_byte_of_sum(a, lattice_byte(y, mixed >> 8))];
    let last = low_byte_of_sum(b, lattice_byte(z, mixed >> 16));
    assert(0 <= last < 256);
    assert(PERM[last] < 256);
}

/// The permutation names no number twice.
pub proof fn lemma_permutation_is_injective()
    ensures
        forall|i: int, j: int| 0 <= i < j < 256 ==> #[trigger] PERM[i] != #[trigger] PERM[j],
{
}

} // verus!
