//! The planet: its cells, and the questions it answers about them.

use vstd::prelude::*;
use crate::cell::VoronoiCell;
use crate::config::PlanetConfig;
use crate::error::VoronoiError;
use crate::generation::delaunay::DelaunayResult;
use crate::generation::{generate_raw_cells, generation_failure_text};
use crate::generation::voronoi::{
    are_cells_of, buildable, is_cell_graph, lemma_cells_determined, RawCell, TriangleGeometry,
};
use crate::generation::MIN_CELL_COUNT;
use crate::graph::{
    at_hops, hop, is_neighbor_graph, lemma_cell_and_neighbors_count, lemma_empty_level_closes,
    lemma_within_grows, nearer_first, within_hops,
};
use crate::point::Point3;
use crate::scalar::Scalar;
use crate::terrain::TerrainSampler;

verus! {

/// The neighbour lists of the cells, by id.
pub open spec fn neighbor_lists<T>(cells: Seq<VoronoiCell<T>>) -> Seq<Seq<usize>> {
    Seq::new(cells.len(), |i: int| cells[i].neighbors@)
}

/// The cells without their terrain.
pub open spec fn without_terrain<T>(cells: Seq<VoronoiCell<T>>) -> Seq<RawCell> {
    Seq::new(
        cells.len(),
        |i: int|
            RawCell {
                id: cells[i].id,
                center: cells[i].center,
                neighbors: cells[i].neighbors,
                vertices: cells[i].vertices,
            },
    )
}

/// A planet: the cells of a tessellated sphere, with the configuration they
/// were built from.
///
/// A planet is built once and never changes. Its cells are numbered from 0;
/// the cell with id `i` is the `i`-th, and the neighbour lists form a graph
/// in which bordering is mutual.
pub struct VoronoiPlanet<T> {
    config: PlanetConfig,
    cells: Vec<VoronoiCell<T>>,
    radius: Scalar,
}

impl<T> VoronoiPlanet<T> {
    #[verifier::type_invariant]
    spec fn well_formed(self) -> bool {
        &&& self.radius == self.config.radius_in_force()
        &&& forall|i: int| 0 <= i < self.cells@.len() ==> (#[trigger] self.cells@[i]).id == i
        &&& is_neighbor_graph(neighbor_lists(self.cells@))
    }

    /// The cells, by id.
    pub closed spec fn all_cells(self) -> Seq<VoronoiCell<T>> {
        self.cells@
    }

    /// The configuration the planet was built from.
    pub closed spec fn built_from(self) -> PlanetConfig {
        self.config
    }

    /// The neighbour graph of the planet.
    pub open spec fn graph(self) -> Seq<Seq<usize>> {
        neighbor_lists(self.all_cells())
    }

    /// Builds the planet of a configuration from the triangulation of its
    /// seed points, asking `sampler` for the terrain at each cell's centre,
    /// cell by cell in ascending order of ids. Each cell carries what the
    /// sampler answered for its centre and the radius in force.
    ///
    /// A configuration of no cells gives a planet without cells. One of one
    /// to three cells, or a degenerate triangulation, fails with
    /// [`VoronoiError::GenerationFailed`]; the error is the one that
    /// [`generate_raw_cells`] gives, handed on as it is, and the sampler is
    /// not asked.
    pub fn generate_with_sampler<S>(
        config: PlanetConfig,
        hull: &DelaunayResult,
        geometry: &[TriangleGeometry],
        sampler: &S,
    ) -> (result: Result<Self, VoronoiError>) where S: TerrainSampler<Output = T>
        ensures
            match result {
                Ok(planet) => {
                    &&& planet.built_from() == config
                    &&& forall|i: int|
                        0 <= i < planet.all_cells().len() ==> call_ensures(
                            S::sample,
                            (
                                sampler,
                                (#[trigger] planet.all_cells()[i]).center,
                                config.radius_in_force(),
                            ),
                            planet.all_cells()[i].terrain,
                        )
                    &&& if config.planet_size.cells() == 0 {
                        planet.all_cells().len() == 0
                    } else {
                        &&& config.planet_size.cells() >= MIN_CELL_COUNT
                        &&& buildable(*hull, geometry@)
                        &&& are_cells_of(*hull, geometry@, without_terrain(planet.all_cells()))
                    }
                },
                Err(error) => {
                    &&& error is GenerationFailed
                    &&& config.planet_size.cells() != 0
                    &&& config.planet_size.cells() < MIN_CELL_COUNT || !buildable(*hull, geometry@)
                    &&& error.detail() == generation_failure_text(config, *hull, geometry@)
                },
            },
    {
        let radius = config.radius();
        let raw_cells = match generate_raw_cells(&config, hull, geometry) {
            Ok(raw_cells) => raw_cells,
            Err(error) => {
                return Err(error);
            },
        };
        let ghost raw = raw_cells@;
        let mut cells: Vec<VoronoiCell<T>> = Vec::new();
        for raw_cell in it: raw_cells
            invariant
                it.seq() == raw,
                cells@.len() == it.index(),
                radius == config.radius_in_force(),
                forall|i: int|
                    0 <= i < cells@.len() ==> call_ensures(
                        S::sample,
                        (sampler, (#[trigger] cells@[i]).center, radius),
                        cells@[i].terrain,
                    ),
                forall|i: int|
                    0 <= i < cells@.len() ==> {
                        &&& (#[trigger] cells@[i]).id == raw[i].id
                        &&& cells@[i].center == raw[i].center
                        &&& cells@[i].neighbors == raw[i].neighbors
                        &&& cells@[i].vertices == raw[i].vertices
                    },
        {
            let terrain = sampler.sample(raw_cell.center, radius);
            cells.push(
                VoronoiCell::new(
                    raw_cell.id,
                    raw_cell.center,
                    terrain,
                    raw_cell.neighbors,
                    raw_cell.vertices,
                ),
            );
        }
        proof {
            assert(without_terrain(cells@) =~= raw);
            assert(neighbor_lists(cells@) =~= Seq::new(raw.len(), |i: int| raw[i].neighbors@));
            assert(is_cell_graph(raw));
        }
        Ok(VoronoiPlanet { config, cells, radius })
    }
    /// The configuration the planet was built from.
    pub fn config(&self) -> (config: &PlanetConfig)
        ensures
            *config == self.built_from(),
    {
        &self.config
    }

    /// The number of cells.
    pub fn cell_count(&self) -> (count: usize)
        ensures
            count == self.all_cells().len(),
    {
        self.cells.len()
    }

    /// The radius of the sphere: the radius in force in the configuration.
    pub fn radius(&self) -> (radius: Scalar)
        ensures
            radius == self.built_from().radius_in_force(),
    {
        proof {
            use_type_invariant(self);
        }
        self.radius
    }

    /// The cell with the given id, or nothing if no cell has it.
    pub fn get_cell(&self, id: usize) -> (cell: Option<&VoronoiCell<T>>)
        ensures
            match cell {
                Some(cell) => id < self.all_cells().len() && *cell == self.all_cells()[id as int]
                    && cell.id == id,
                None => id >= self.all_cells().len(),
            },
    {
        proof {
            use_type_invariant(self);
        }
        if id < self.cells.len() {
            Some(&self.cells[id])
        } else {
            None
        }
    }

    /// All cells, by id. The cell at place `i` has id `i`, and the
    /// neighbour lists form a graph: each is ascending and names other cells
    /// only, and `b` is a neighbour of `a` exactly when `a` is one of `b`.
    pub fn cells(&self) -> (cells: &[VoronoiCell<T>])
        ensures
            cells@ == self.all_cells(),
            forall|i: int| 0 <= i < cells@.len() ==> (#[trigger] cells@[i]).id == i,
            is_neighbor_graph(neighbor_lists(cells@)),
    {
        proof {
            use_type_invariant(self);
        }
        self.cells.as_slice()
    }

    /// The ids of the cells that border the given cell; none if no cell has
    /// the id.
    pub fn get_neighbors(&self, cell_id: usize) -> (neighbors: &[usize])
        ensures
            neighbors@ == if cell_id < self.all_cells().len() {
                self.all_cells()[cell_id as int].neighbors@
            } else {
                Seq::<usize>::empty()
            },
            cell_id < self.graph().len() ==> neighbors@ == self.graph()[cell_id as int],
    {
        if cell_id < self.cells.len() {
            self.cells[cell_id].neighbors.as_slice()
        } else {
            &[]
        }
    }

    /// The cells within `hops` hops of a cell, the cell itself among them,
    /// each named once; none if no cell has the id.
    ///
    /// The cells come in the order in which a breadth-first walk finds
    /// them: nearer cells before farther ones, the cell itself first.
    pub fn find_cells_within_radius(&self, center_id: usize, hops: usize) -> (found: Vec<usize>)
        ensures
            found@.no_duplicates(),
            forall|id: usize|
                found@.contains(id) <==> within_hops(self.graph(), center_id, hops as nat, id),
            nearer_first(self.graph(), center_id, found@),
            center_id < self.graph().len() ==> found@.len() > 0 && found@[0] == center_id,
            center_id >= self.graph().len() ==> found@.len() == 0,
            center_id < self.graph().len() && hops == 0 ==> found@ == seq![center_id],
            center_id < self.graph().len() && hops == 1 ==> found@.len() == 1
                + self.graph()[center_id as int].len(),
    {
        proof {
            use_type_invariant(self);
        }
        let n = self.cells.len();
        let ghost graph = neighbor_lists(self.cells@);
        let mut found: Vec<usize> = Vec::new();
        if center_id >= n {
            return found;
        }
        let mut visited: Vec<bool> = Vec::new();
        let mut k: usize = 0;
        while k < n
            invariant
                k <= n,
                visited@.len() == k,
                forall|i: int| 0 <= i < k ==> !visited@[i],
            decreases n - k,
        {
            visited.push(false);
            k += 1;
        }
        visited[center_id] = true;
        found.push(center_id);
        let mut current: Vec<usize> = Vec::new();
        current.push(center_id);
        let mut level: usize = 0;
        proof {
            assert forall|id: usize| id < n implies (visited@[id as int] <==> found@.contains(
                id,
            )) by {
                if id == center_id {
                    assert(found@[0] == id);
                }
            }
            assert forall|id: usize|
                found@.contains(id) <==> within_hops(graph, center_id, 0, id) by {
                if id == center_id {
                    assert(found@[0] == id);
                }
            }
            assert forall|id: usize| at_hops(graph, center_id, 0, id) implies current@.contains(
                id,
            ) by {
                assert(current@[0] == id);
            }
        }
        while level < hops && current.len() > 0
            invariant
                n == self.cells@.len(),
                graph == neighbor_lists(self.cells@),
                is_neighbor_graph(graph),
                center_id < n,
                level <= hops,
                visited@.len() == n,
                found@.no_duplicates(),
                nearer_first(graph, center_id, found@),
                forall|k: int| 0 <= k < found@.len() ==> found@[k] < n,
                forall|id: usize| id < n ==> (visited@[id as int] <==> found@.contains(id)),
                forall|id: usize|
                    found@.contains(id) <==> within_hops(graph, center_id, level as nat, id),
                forall|k: int|
                    0 <= k < current@.len() ==> (#[trigger] current@[k]) < n && within_hops(
                        graph,
                        center_id,
                        level as nat,
                        current@[k],
                    ),
                forall|id: usize|
                    at_hops(graph, center_id, level as nat, id) ==> current@.contains(id),
            decreases hops - level,
        {
            let ghost reached = found@;
            let mut next: Vec<usize> = Vec::new();
            let width = current.len();
            let mut i: usize = 0;
            while i < width
                invariant
                    n == self.cells@.len(),
                    graph == neighbor_lists(self.cells@),
                    is_neighbor_graph(graph),
                    center_id < n,
                    level < hops,
                    width == current@.len(),
                    i <= width,
                    visited@.len() == n,
                    found@.no_duplicates(),
                    nearer_first(graph, center_id, found@),
                    forall|k: int| 0 <= k < found@.len() ==> found@[k] < n,
                    forall|id: usize| id < n ==> (visited@[id as int] <==> found@.contains(id)),
                    forall|id: usize|
                        reached.contains(id) <==> within_hops(graph, center_id, level as nat, id),
                    forall|k: int|
                        0 <= k < current@.len() ==> (#[trigger] current@[k]) < n && within_hops(
                            graph,
                            center_id,
                            level as nat,
                            current@[k],
                        ),
                    forall|id: usize|
                        found@.contains(id) <==> (reached.contains(id) || next@.contains(id)),
                    forall|k: int|
                        0 <= k < next@.len() ==> !reached.contains(#[trigger] next@[k])
                            && within_hops(graph, center_id, (level + 1) as nat, next@[k]),
                    forall|c: int, j: int|
                        0 <= c < i && 0 <= j < graph[current@[c] as int].len() ==> visited@[(
                        #[trigger] graph[current@[c] as int][j]) as int],
                decreases width - i,
            {
                let cell = current[i];
                let neighbors = &self.cells[cell].neighbors;
                let degree = neighbors.len();
                assert(neighbors@ == graph[cell as int]);
                let mut j: usize = 0;
                while j < degree
                    invariant
                        n == self.cells@.len(),
                        graph == neighbor_lists(self.cells@),
                        is_neighbor_graph(graph),
                        center_id < n,
                        level < hops,
                        width == current@.len(),
                        i < width,
                        cell == current@[i as int],
                        cell < n,
                        forall|k: int| 0 <= k < current@.len() ==> (#[trigger] current@[k]) < n,
                        within_hops(graph, center_id, level as nat, cell),
                        neighbors@ == graph[cell as int],
                        degree == neighbors@.len(),
                        j <= degree,
                        visited@.len() == n,
                        found@.no_duplicates(),
                        nearer_first(graph, center_id, found@),
                        forall|k: int| 0 <= k < found@.len() ==> found@[k] < n,
                        forall|id: usize|
                            id < n ==> (visited@[id as int] <==> found@.contains(id)),
                        forall|id: usize|
                            reached.contains(id) <==> within_hops(
                                graph,
                                center_id,
                                level as nat,
                                id,
                            ),
                        forall|id: usize|
                            found@.contains(id) <==> (reached.contains(id) || next@.contains(id)),
                        forall|k: int|
                            0 <= k < next@.len() ==> !reached.contains(#[trigger] next@[k])
                                && within_hops(graph, center_id, (level + 1) as nat, next@[k]),
                        forall|c: int, j: int|
                            0 <= c < i && 0 <= j < graph[current@[c] as int].len() ==> visited@[(
                            #[trigger] graph[current@[c] as int][j]) as int],
                        forall|b: int| 0 <= b < j ==> visited@[(#[trigger] neighbors@[b]) as int],
                    decreases degree - j,
                {
                    let neighbor = neighbors[j];
                    assert(graph[cell as int][j as int] < n);
                    if !visited[neighbor] {
                        let ghost found_before = found@;
                        let ghost next_before = next@;
                        visited[neighbor] = true;
                        found.push(neighbor);
                        next.push(neighbor);
                        proof {
                            assert(!found_before.contains(neighbor));
                            assert(hop(graph, cell, neighbor));
                            assert(within_hops(graph, center_id, (level + 1) as nat, neighbor));
                            assert forall|a: int, b: int, far: nat|
                                0 <= a < b < found@.len() && #[trigger] within_hops(
                                    graph,
                                    center_id,
                                    far,
                                    found@[b],
                                ) implies #[trigger] within_hops(
                                graph,
                                center_id,
                                far,
                                found@[a],
                            ) by {
                                assert(found@[a] == found_before[a]);
                                if b < found_before.len() {
                                    assert(found@[b] == found_before[b]);
                                } else {
                                    let earlier = found_before[a];
                                    assert(found_before.contains(earlier));
                                    if far <= level {
                                        lemma_within_grows(
                                            graph,
                                            center_id,
                                            far,
                                            level as nat,
                                            neighbor,
                                        );
                                        assert(reached.contains(neighbor));
                                    } else {
                                        if next_before.contains(earlier) {
                                            let k = choose|k: int|
                                                0 <= k < next_before.len() && next_before[k]
                                                    == earlier;
                                            assert(within_hops(
                                                graph,
                                                center_id,
                                                (level + 1) as nat,
                                                next_before[k],
                                            ));
                                        } else {
                                            assert(reached.contains(earlier));
                                            lemma_within_grows(
                                                graph,
                                                center_id,
                                                level as nat,
                                                (level + 1) as nat,
                                                earlier,
                                            );
                                        }
                                        lemma_within_grows(
                                            graph,
                                            center_id,
                                            (level + 1) as nat,
                                            far,
                                            earlier,
                                        );
                                    }
                                }
                            }
                            assert forall|id: usize|
                                found@.contains(id) <==> (found_before.contains(id) || id
                                    == neighbor) by {
                                if found_before.contains(id) {
                                    let k = choose|k: int|
                                        0 <= k < found_before.len() && found_before[k] == id;
                                    assert(found@[k] == id);
                                }
                                if id == neighbor {
                                    assert(found@[found_before.len() as int] == id);
                                }
                                if found@.contains(id) {
                                    let k = choose|k: int| 0 <= k < found@.len() && found@[k] == id;
                                    if k < found_before.len() {
                                        assert(found_before[k] == id);
                                    }
                                }
                            }
                            assert forall|id: usize|
                                next@.contains(id) <==> (next_before.contains(id) || id
                                    == neighbor) by {
                                if next_before.contains(id) {
                                    let k = choose|k: int|
                                        0 <= k < next_before.len() && next_before[k] == id;
                                    assert(next@[k] == id);
                                }
                                if id == neighbor {
                                    assert(next@[next_before.len() as int] == id);
                                }
                                if next@.contains(id) {
                                    let k = choose|k: int| 0 <= k < next@.len() && next@[k] == id;
                                    if k < next_before.len() {
                                        assert(next_before[k] == id);
                                    }
                                }
                            }
                            assert forall|a: int, b: int|
                                0 <= a < found@.len() && 0 <= b < found@.len() && a
                                    != b implies found@[a] != found@[b] by {
                                if a < found_before.len() && b < found_before.len() {
                                    assert(found_before[a] != found_before[b]);
                                } else if a < found_before.len() {
                                    assert(found_before.contains(found_before[a]));
                                } else {
                                    assert(found_before.contains(found_before[b]));
                                }
                            }
                            assert forall|k: int| 0 <= k < next@.len() implies !reached.contains(
                                #[trigger] next@[k],
                            ) && within_hops(graph, center_id, (level + 1) as nat, next@[k]) by {
                                if k < next_before.len() {
                                    assert(next@[k] == next_before[k]);
                                }
                            }
                        }
                    }
                    j += 1;
                }
                i += 1;
            }
            proof {
                let deeper = (level + 1) as nat;
                assert((deeper - 1) as nat == level as nat);
                assert forall|id: usize|
                    found@.contains(id) <==> within_hops(graph, center_id, deeper, id) by {
                    if next@.contains(id) {
                        let k = choose|k: int| 0 <= k < next@.len() && next@[k] == id;
                        assert(within_hops(graph, center_id, deeper, next@[k]));
                    }
                    if reached.contains(id) {
                        assert(within_hops(graph, center_id, level as nat, id));
                        assert(within_hops(graph, center_id, deeper, id));
                    }
                    if within_hops(graph, center_id, level as nat, id) {
                        assert(reached.contains(id));
                        assert(found@.contains(id));
                    }
                    if within_hops(graph, center_id, deeper, id) && !within_hops(
                        graph,
                        center_id,
                        level as nat,
                        id,
                    ) {
                        let via = choose|via: usize|
                            within_hops(graph, center_id, level as nat, via) && #[trigger] hop(
                                graph,
                                via,
                                id,
                            );
                        if at_hops(graph, center_id, level as nat, via) {
                            assert(current@.contains(via));
                            let c = choose|c: int| 0 <= c < current@.len() && current@[c] == via;
                            let b = choose|b: int|
                                0 <= b < graph[via as int].len() && graph[via as int][b] == id;
                            assert(graph[current@[c] as int][b] == id);
                            assert(id < n);
                            assert(visited@[id as int]);
                        } else {
                            assert(hop(graph, via, id));
                            assert(within_hops(graph, center_id, level as nat, id));
                        }
                    }
                }
                assert forall|id: usize| at_hops(graph, center_id, deeper, id) implies next@.contains(
                    id,
                ) by {
                    assert(found@.contains(id));
                    assert(!reached.contains(id));
                }
            }
            current = next;
            level += 1;
        }
        proof {
            assert forall|id: usize|
                found@.contains(id) <==> within_hops(graph, center_id, hops as nat, id) by {
                if level < hops {
                    assert forall|other: usize| !at_hops(
                        graph,
                        center_id,
                        level as nat,
                        other,
                    ) by {
                        if at_hops(graph, center_id, level as nat, other) {
                            assert(current@.contains(other));
                        }
                    }
                    if within_hops(graph, center_id, hops as nat, id) {
                        lemma_empty_level_closes(graph, center_id, level as nat, hops as nat, id);
                    }
                    if within_hops(graph, center_id, level as nat, id) {
                        lemma_within_grows(graph, center_id, level as nat, hops as nat, id);
                    }
                }
            }
            assert(within_hops(graph, center_id, 0, center_id));
            lemma_within_grows(graph, center_id, 0, hops as nat, center_id);
            assert(found@.contains(center_id));
            let first = choose|k: int| 0 <= k < found@.len() && found@[k] == center_id;
            if first > 0 {
                assert(within_hops(graph, center_id, 0, found@[first]));
                assert(within_hops(graph, center_id, 0, found@[0]));
            }
            if hops == 0 {
                assert(found@.contains(center_id));
                if found@.len() > 1 {
                    assert(found@.contains(found@[0]) && found@.contains(found@[1]));
                }
                assert(found@.contains(found@[0]));
                assert(found@ =~= seq![center_id]);
            }
            if hops == 1 {
                lemma_cell_and_neighbors_count(graph, center_id, found@);
            }
        }
        found
    }
}

/// Two planets built from the same triangulation and geometry have the same
/// cells: they agree in every id, centre, neighbour list and boundary.
pub proof fn lemma_same_triangulation_same_cells<T>(
    hull: DelaunayResult,
    geometry: Seq<TriangleGeometry>,
    first: Seq<VoronoiCell<T>>,
    second: Seq<VoronoiCell<T>>,
)
    requires
        are_cells_of(hull, geometry, without_terrain(first)),
        are_cells_of(hull, geometry, without_terrain(second)),
    ensures
        first.len() == second.len(),
        forall|i: int|
            0 <= i < first.len() ==> {
                &&& (#[trigger] first[i]).id == second[i].id
                &&& first[i].center == second[i].center
                &&& first[i].neighbors@ == second[i].neighbors@
                &&& first[i].vertices@ == second[i].vertices@
            },
{
    let a = without_terrain(first);
    let b = without_terrain(second);
    lemma_cells_determined(hull, geometry, a, b);
    assert forall|i: int| 0 <= i < first.len() implies {
        &&& (#[trigger] first[i]).id == second[i].id
        &&& first[i].center == second[i].center
        &&& first[i].neighbors@ == second[i].neighbors@
        &&& first[i].vertices@ == second[i].vertices@
    } by {
        assert(a[i].id == b[i].id);
        assert(a[i].neighbors@ == first[i].neighbors@);
        assert(b[i].neighbors@ == second[i].neighbors@);
    }
}

/// A copy of a list of ids.
fn copy_ids(list: &Vec<usize>) -> (copy: Vec<usize>)
    ensures
        copy@ == list@,
{
    let mut copy: Vec<usize> = Vec::new();
    let count = list.len();
    let mut i: usize = 0;
    while i < count
        invariant
            i <= count,
            count == list@.len(),
            copy@ == list@.take(i as int),
        decreases count - i,
    {
        copy.push(list[i]);
        assert(list@.take(i + 1) =~= list@.take(i as int).push(list@[i as int]));
        i += 1;
    }
    assert(list@.take(count as int) =~= list@);
    copy
}

/// A copy of a list of points.
fn copy_points(list: &Vec<Point3>) -> (copy: Vec<Point3>)
    ensures
        copy@ == list@,
{
    let mut copy: Vec<Point3> = Vec::new();
    let count = list.len();
    let mut i: usize = 0;
    while i < count
        invariant
            i <= count,
            count == list@.len(),
            copy@ == list@.take(i as int),
        decreases count - i,
    {
        copy.push(list[i]);
        assert(list@.take(i + 1) =~= list@.take(i as int).push(list@[i as int]));
        i += 1;
    }
    assert(list@.take(count as int) =~= list@);
    copy
}

impl<T: Clone> Clone for VoronoiPlanet<T> {
    /// A planet with the same configuration and the same cells, each with
    /// a clone of its terrain.
    fn clone(&self) -> (planet: Self)
        ensures
            planet.built_from() == self.built_from(),
            planet.all_cells().len() == self.all_cells().len(),
            forall|i: int|
                0 <= i < self.all_cells().len() ==> {
                    &&& (#[trigger] planet.all_cells()[i]).id == self.all_cells()[i].id
                    &&& planet.all_cells()[i].center == self.all_cells()[i].center
                    &&& planet.all_cells()[i].neighbors@ == self.all_cells()[i].neighbors@
                    &&& planet.all_cells()[i].vertices@ == self.all_cells()[i].vertices@
                    &&& cloned(self.all_cells()[i].terrain, planet.all_cells()[i].terrain)
                },
    {
        proof {
            use_type_invariant(self);
        }
        let count = self.cells.len();
        let mut cells: Vec<VoronoiCell<T>> = Vec::new();
        let mut i: usize = 0;
        while i < count
            invariant
                i <= count,
                count == self.cells@.len(),
                cells@.len() == i,
                forall|k: int|
                    0 <= k < i ==> {
                        &&& (#[trigger] cells@[k]).id == self.cells@[k].id
                        &&& cells@[k].center == self.cells@[k].center
                        &&& cells@[k].neighbors@ == self.cells@[k].neighbors@
                        &&& cells@[k].vertices@ == self.cells@[k].vertices@
                        &&& cloned(self.cells@[k].terrain, cells@[k].terrain)
                    },
            decreases count - i,
        {
            let cell = &self.cells[i];
            cells.push(
                VoronoiCell::new(
                    cell.id,
                    cell.center,
                    cell.terrain.clone(),
                    copy_ids(&cell.neighbors),
                    copy_points(&cell.vertices),
                ),
            );
            i += 1;
        }
        proof {
            assert(neighbor_lists(cells@) =~= neighbor_lists(self.cells@));
        }
        VoronoiPlanet { config: self.config, cells, radius: self.radius }
    }
}

} // verus!
