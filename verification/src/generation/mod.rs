//! From seed points to cells.
//!
//! A planet's cells come out of a pipeline: seed points are spread over the
//! sphere, relaxed towards evenness, and triangulated; the cells are then
//! read from the triangulation. Placing, relaxing and triangulating are
//! numeric work that is done outside this library. What is decided here is
//! the rest: how far the spiral keeps from the poles ([`fibonacci`]), how
//! long relaxation runs ([`lloyd`]), and which cells a triangulation gives
//! ([`voronoi`]).

pub mod delaunay;
pub mod fibonacci;
pub mod incidence;
pub mod lloyd;
pub mod ordering;
pub mod voronoi;

use vstd::prelude::*;
use vstd::string::StringExecFns;
use crate::config::PlanetConfig;
use crate::error::VoronoiError;
use crate::generation::delaunay::DelaunayResult;
use crate::generation::voronoi::{
    are_cells_of, buildable, failure_text, generate_cells, is_cell_graph, RawCell,
    TriangleGeometry,
};

verus! {

/// The fewest seed points that span a closed triangulation.
pub const MIN_CELL_COUNT: usize = 4;

/// Whether a planet of `cell_count` cells has anything to triangulate: a
/// planet without cells has not, and one of fewer than four cells cannot be
/// built at all.
pub fn needs_triangulation(cell_count: usize) -> (needed: bool)
    ensures
        needed == (cell_count >= MIN_CELL_COUNT),
{
    cell_count >= MIN_CELL_COUNT
}

/// What a failed generation says: that the configuration has too few cells
/// to triangulate, or else what is wrong with the triangulation.
pub open spec fn generation_failure_text(
    config: PlanetConfig,
    hull: DelaunayResult,
    geometry: Seq<TriangleGeometry>,
) -> Seq<char> {
    if config.planet_size.cells() < MIN_CELL_COUNT {
        "fewer than four seed points span no triangulation"@
    } else {
        failure_text(hull, geometry)
    }
}

/// The cells of a planet, without terrain.
///
/// `hull` is the triangulation of the planet's relaxed seed points and
/// `geometry` the geometry of its triangles. A planet configured with no
/// cells has none, whatever the triangulation holds. A planet of one to
/// three cells cannot be triangulated and fails. Any other planet has the
/// cells of its triangulation, and fails where that is degenerate, with the
/// error that [`generate_cells`] gives.
pub fn generate_raw_cells(
    config: &PlanetConfig,
    hull: &DelaunayResult,
    geometry: &[TriangleGeometry],
) -> (result: Result<Vec<RawCell>, VoronoiError>)
    ensures
        match result {
            Ok(cells) => if config.planet_size.cells() == 0 {
                cells@.len() == 0
            } else {
                &&& config.planet_size.cells() >= MIN_CELL_COUNT
                &&& buildable(*hull, geometry@)
                &&& are_cells_of(*hull, geometry@, cells@)
            },
            Err(error) => {
                &&& error is GenerationFailed
                &&& config.planet_size.cells() != 0
                &&& config.planet_size.cells() < MIN_CELL_COUNT || !buildable(*hull, geometry@)
                &&& error.detail() == generation_failure_text(*config, *hull, geometry@)
            },
        },
        result matches Ok(cells) ==> is_cell_graph(cells@),
{
    let cell_count = config.cell_count();
    if cell_count == 0 {
        return Ok(Vec::new());
    }
    if !needs_triangulation(cell_count) {
        return Err(
            VoronoiError::GenerationFailed(
                String::from_str("fewer than four seed points span no triangulation"),
            ),
        );
    }
    generate_cells(hull, geometry)
}

/// Where the triangulation keeps every seed point, no cell is lost: a
/// planet whose triangulation has as many vertices as the configuration
/// asks cells has exactly that many cells.
pub proof fn lemma_no_cell_is_lost(
    config: PlanetConfig,
    hull: DelaunayResult,
    geometry: Seq<TriangleGeometry>,
    cells: Seq<RawCell>,
)
    requires
        are_cells_of(hull, geometry, cells),
        hull.vertices@.len() == config.planet_size.cells(),
    ensures
        cells.len() == config.planet_size.cells(),
        forall|v: int| 0 <= v < cells.len() ==> (#[trigger] cells[v]).id == v,
{
    assert forall|v: int| 0 <= v < cells.len() implies (#[trigger] cells[v]).id == v by {
        assert(crate::generation::voronoi::is_cell_of(hull, geometry, v, cells[v]));
    }
}

} // verus!
