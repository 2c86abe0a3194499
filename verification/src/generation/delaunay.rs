//! The triangulation that the cells are read from.
//!
//! For points on a sphere the convex hull is their Delaunay triangulation.
//! The hull itself is computed elsewhere; this module holds its result.

use vstd::prelude::*;
use crate::point::Point3;

verus! {

/// A triangulation: its vertices, and its triangles as triples of indices
/// into the vertex list.
///
/// The vertices may be fewer than the points that were triangulated, and in
/// another order: a cell's id is the place of its seed in this list.
#[derive(Debug, Clone)]
pub struct DelaunayResult {
    pub vertices: Vec<Point3>,
    pub triangles: Vec<[u32; 3]>,
}

/// Whether the three corners of a triangle are below `vertex_count`.
pub open spec fn corners_below(triangle: [u32; 3], vertex_count: int) -> bool {
    triangle[0] < vertex_count && triangle[1] < vertex_count && triangle[2] < vertex_count
}

impl DelaunayResult {
    /// Whether every corner of every triangle names a vertex.
    pub open spec fn well_formed(&self) -> bool {
        forall|t: int|
            0 <= t < self.triangles@.len() ==> corners_below(
                #[trigger] self.triangles@[t],
                self.vertices@.len() as int,
            )
    }

    /// Whether every corner of every triangle names a vertex.
    pub fn is_well_formed(&self) -> (ok: bool)
        ensures
            ok == self.well_formed(),
    {
        let n = self.vertices.len();
        let m = self.triangles.len();
        let mut t: usize = 0;
        while t < m
            invariant
                t <= m,
                m == self.triangles@.len(),
                n == self.vertices@.len(),
                forall|s: int| 0 <= s < t ==> corners_below(#[trigger] self.triangles@[s], n as int),
            decreases m - t,
        {
            let triangle = self.triangles[t];
            if triangle[0] as usize >= n || triangle[1] as usize >= n || triangle[2] as usize >= n {
                assert(!corners_below(self.triangles@[t as int], n as int));
                return false;
            }
            t += 1;
        }
        true
    }
}

} // verus!
