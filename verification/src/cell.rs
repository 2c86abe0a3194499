//! One cell of the tessellation.

use vstd::prelude::*;
use crate::point::Point3;

verus! {

/// A cell of the planet: its seed point, its terrain, the cells it borders
/// and the corners of its boundary polygon.
///
/// Cells are built once, by the planet, and only read afterwards. They are
/// never stored: a planet is rebuilt from its configuration.
#[derive(Debug, Clone)]
pub struct VoronoiCell<T> {
    /// The cell's number, from 0 up to the number of cells.
    pub id: usize,
    /// The seed point of the cell, on the sphere.
    pub center: Point3,
    /// What the terrain sampler made of the centre.
    pub terrain: T,
    /// The ids of the bordering cells.
    pub neighbors: Vec<usize>,
    /// The corners of the boundary, counter-clockwise seen from outside.
    pub vertices: Vec<Point3>,
}

impl<T> VoronoiCell<T> {
    /// A cell with the given parts.
    pub fn new(
        id: usize,
        center: Point3,
        terrain: T,
        neighbors: Vec<usize>,
        vertices: Vec<Point3>,
    ) -> (cell: Self)
        ensures
            cell.id == id,
            cell.center == center,
            cell.terrain == terrain,
            cell.neighbors == neighbors,
            cell.vertices == vertices,
    {
        VoronoiCell { id, center, terrain, neighbors, vertices }
    }

    /// How many cells border this one.
    pub fn neighbor_count(&self) -> (count: usize)
        ensures
            count == self.neighbors@.len(),
    {
        self.neighbors.len()
    }

    /// Whether the cell with the given id borders this one.
    pub fn is_neighbor_of(&self, other_cell_id: usize) -> (found: bool)
        ensures
            found == self.neighbors@.contains(other_cell_id),
    {
        let count = self.neighbors.len();
        let mut i: usize = 0;
        while i < count
            invariant
                i <= count,
                count == self.neighbors@.len(),
                forall|k: int| 0 <= k < i ==> self.neighbors@[k] != other_cell_id,
            decreases count - i,
        {
            if self.neighbors[i] == other_cell_id {
                return true;
            }
            i += 1;
        }
        false
    }

    /// How many corners the boundary has.
    pub fn vertex_count(&self) -> (count: usize)
        ensures
            count == self.vertices@.len(),
    {
        self.vertices.len()
    }
}

} // verus!
