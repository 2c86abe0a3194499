//! Cells from a triangulation: adjacency maps, neighbour lists, boundaries.

use vstd::prelude::*;
use vstd::string::StringExecFns;
use crate::error::VoronoiError;
use crate::generation::delaunay::DelaunayResult;
use crate::generation::incidence::{
    corners, hits, inverted_row, is_inverse_of, lemma_ascending_unique, lemma_hits_step,
    lemma_inverted_row_ascends, lemma_inverted_row_step, lemma_linked_iff_share_triangle,
    lemma_share_triangle_symmetric, link_at, linked, linked_before, rows_of, share_triangle,
    strictly_ascending, triangle_rows,
};
use crate::generation::ordering::{lemma_stable_order_exists, sort_stably, stable_order};
use crate::point::Point3;
use crate::scalar::Scalar;

verus! {

/// A cell without terrain: what the triangulation alone gives.
#[derive(Debug, Clone)]
pub struct RawCell {
    /// The cell's number: the place of its seed in the vertex list.
    pub id: usize,
    /// The seed point.
    pub center: Point3,
    /// The ids of the bordering cells, ascending.
    pub neighbors: Vec<usize>,
    /// The corners of the boundary, counter-clockwise seen from outside.
    pub vertices: Vec<Point3>,
}

/// What the geometry of one triangle contributes to the cells at its
/// corners.
///
/// The circumcentre is a corner of the boundary of each of the three cells.
/// `angles[k]` is the direction in which the cell at corner `k` of the
/// triangle sees it: the angle of the circumcentre in the tangent plane at
/// that cell's seed.
#[derive(Debug, Clone, Copy)]
pub struct TriangleGeometry {
    pub circumcenter: Point3,
    pub angles: [Scalar; 3],
}

/// The first corner of `triangle` that is `vertex`: 0, 1 or 2.
pub open spec fn corner_of(triangle: [u32; 3], vertex: int) -> int {
    if triangle[0] == vertex {
        0
    } else if triangle[1] == vertex {
        1
    } else {
        2
    }
}

/// The boundary corners of a cell before they are ordered: for each
/// triangle of the cell, in ascending order of triangles, its circumcentre
/// and the angle under which the cell sees it.
pub open spec fn corner_list(
    triangles: Seq<[u32; 3]>,
    geometry: Seq<TriangleGeometry>,
    vertex: usize,
) -> Seq<(Point3, Scalar)> {
    let incident = inverted_row(triangle_rows(triangles), vertex);
    Seq::new(
        incident.len(),
        |i: int|
            (
                geometry[incident[i] as int].circumcenter,
                geometry[incident[i] as int].angles[corner_of(
                    triangles[incident[i] as int],
                    vertex as int,
                )],
            ),
    )
}

/// The keys by which corners are ordered.
pub open spec fn angle_keys(corner_list: Seq<(Point3, Scalar)>) -> Seq<i64> {
    Seq::new(corner_list.len(), |i: int| corner_list[i].1.sort_key() as i64)
}

/// The corners in boundary order: by ascending angle, corners with the same
/// angle in the order given. Fewer than three corners bound no polygon and
/// stay as they are.
pub open spec fn ordered_positions(corner_list: Seq<(Point3, Scalar)>) -> Seq<Point3> {
    if corner_list.len() < 3 {
        Seq::new(corner_list.len(), |i: int| corner_list[i].0)
    } else {
        let order = stable_order(angle_keys(corner_list));
        Seq::new(corner_list.len(), |i: int| corner_list[order[i] as int].0)
    }
}

/// Whether `cell` is the cell of vertex `vertex` of the triangulation.
pub open spec fn is_cell_of(
    hull: DelaunayResult,
    geometry: Seq<TriangleGeometry>,
    vertex: int,
    cell: RawCell,
) -> bool {
    &&& cell.id == vertex
    &&& cell.center == hull.vertices@[vertex]
    &&& cell.vertices@ == ordered_positions(
        corner_list(hull.triangles@, geometry, vertex as usize),
    )
    &&& strictly_ascending(cell.neighbors@)
    &&& forall|other: usize|
        cell.neighbors@.contains(other) <==> (other < hull.vertices@.len() && share_triangle(
            hull.triangles@,
            vertex,
            other as int,
        ))
}

/// Whether cells can be read from the triangulation: it has at least four
/// vertices and a triangle, each corner names a vertex, and each triangle has
/// its geometry.
pub open spec fn buildable(hull: DelaunayResult, geometry: Seq<TriangleGeometry>) -> bool {
    &&& hull.vertices@.len() >= 4
    &&& hull.triangles@.len() > 0
    &&& geometry.len() == hull.triangles@.len()
    &&& hull.well_formed()
}

/// What a failure of [`generate_cells`] says: the first of the four defects
/// that the triangulation has, in the order in which they are looked for.
pub open spec fn failure_text(hull: DelaunayResult, geometry: Seq<TriangleGeometry>) -> Seq<char> {
    if hull.vertices@.len() < 4 {
        "the triangulation has fewer than four vertices"@
    } else if hull.triangles@.len() == 0 {
        "the triangulation has no triangles"@
    } else if geometry.len() != hull.triangles@.len() {
        "the triangulation and its geometry differ in length"@
    } else {
        "a triangle of the triangulation names no vertex"@
    }
}

/// Whether `cells` are the cells of the triangulation, one for each vertex.
pub open spec fn are_cells_of(
    hull: DelaunayResult,
    geometry: Seq<TriangleGeometry>,
    cells: Seq<RawCell>,
) -> bool {
    &&& cells.len() == hull.vertices@.len()
    &&& forall|v: int| 0 <= v < cells.len() ==> is_cell_of(hull, geometry, v, #[trigger] cells[v])
}

/// `width` empty rows.
fn empty_rows(width: usize) -> (rows: Vec<Vec<usize>>)
    ensures
        rows@.len() == width,
        forall|i: int| 0 <= i < width ==> (#[trigger] rows@[i])@.len() == 0,
{
    let mut rows: Vec<Vec<usize>> = Vec::new();
    let mut i: usize = 0;
    while i < width
        invariant
            i <= width,
            rows@.len() == i,
            forall|j: int| 0 <= j < i ==> (#[trigger] rows@[j])@.len() == 0,
        decreases width - i,
    {
        rows.push(Vec::new());
        i += 1;
    }
    rows
}

/// For each vertex below `vertex_count`, the triangles it is a corner of.
///
/// The triangles are walked once, in order, and each corner files its
/// triangle under its vertex: so a vertex's list is ascending, and a
/// triangle that names the vertex twice is listed twice. Corners at or above
/// `vertex_count` have no list and are passed over.
pub fn build_vertex_triangle_map(triangle_indices: &[[u32; 3]], vertex_count: usize) -> (map: Vec<
    Vec<usize>,
>)
    ensures
        is_inverse_of(rows_of(map@), triangle_rows(triangle_indices@), vertex_count as int),
{
    let ghost rows = triangle_rows(triangle_indices@);
    let mut map = empty_rows(vertex_count);
    let n = triangle_indices.len();
    let mut t: usize = 0;
    assert(rows.take(0) =~= Seq::<Seq<usize>>::empty());
    while t < n
        invariant
            t <= n,
            n == triangle_indices@.len(),
            rows == triangle_rows(triangle_indices@),
            map@.len() == vertex_count,
            forall|key: usize|
                key < vertex_count ==> (#[trigger] map@[key as int])@ == inverted_row(
                    rows.take(t as int),
                    key,
                ),
        decreases n - t,
    {
        let triangle = triangle_indices[t];
        let ghost row = corners(triangle);
        assert(rows[t as int] == row);
        let mut c: usize = 0;
        assert(row.take(0) =~= Seq::<usize>::empty());
        while c < 3
            invariant
                c <= 3,
                t < n,
                row == corners(triangle),
                map@.len() == vertex_count,
                forall|key: usize|
                    key < vertex_count ==> (#[trigger] map@[key as int])@ == inverted_row(
                        rows.take(t as int),
                        key,
                    ) + hits(row.take(c as int), key, t),
            decreases 3 - c,
        {
            let vertex = triangle[c] as usize;
            assert(row[c as int] == vertex);
            proof {
                assert forall|key: usize| key < vertex_count implies #[trigger] hits(
                    row.take(c + 1),
                    key,
                    t,
                ) == if key == vertex {
                    hits(row.take(c as int), key, t).push(t)
                } else {
                    hits(row.take(c as int), key, t)
                } by {
                    lemma_hits_step(row, key, t, c as int);
                }
            }
            if vertex < vertex_count {
                map[vertex].push(t);
            }
            c += 1;
        }
        proof {
            assert(row.take(3) =~= row);
            assert forall|key: usize| key < vertex_count implies (#[trigger] map@[key as int])@
                == inverted_row(rows.take(t + 1), key) by {
                lemma_inverted_row_step(rows, key, t as int);
            }
        }
        t += 1;
    }
    assert(rows.take(n as int) =~= rows);
    assert(rows_of(map@).len() == vertex_count);
    map
}

/// For each triangle below `triangle_count`, the vertices whose lists name
/// it: the map of [`build_vertex_triangle_map`] turned round.
///
/// The vertices are walked in ascending order, so each triangle's vertices
/// come out ascending, once for each time the vertex's list names the
/// triangle. Entries at or above `triangle_count` are passed over.
pub fn build_triangle_vertex_map(
    vertex_triangle_map: &Vec<Vec<usize>>,
    triangle_count: usize,
) -> (map: Vec<Vec<usize>>)
    ensures
        is_inverse_of(rows_of(map@), rows_of(vertex_triangle_map@), triangle_count as int),
{
    let ghost rows = rows_of(vertex_triangle_map@);
    let mut map = empty_rows(triangle_count);
    let n = vertex_triangle_map.len();
    let mut v: usize = 0;
    assert(rows.take(0) =~= Seq::<Seq<usize>>::empty());
    while v < n
        invariant
            v <= n,
            n == vertex_triangle_map@.len(),
            rows == rows_of(vertex_triangle_map@),
            map@.len() == triangle_count,
            forall|key: usize|
                key < triangle_count ==> (#[trigger] map@[key as int])@ == inverted_row(
                    rows.take(v as int),
                    key,
                ),
        decreases n - v,
    {
        let list = &vertex_triangle_map[v];
        let ghost row = list@;
        assert(rows[v as int] == row);
        let len = list.len();
        let mut c: usize = 0;
        assert(row.take(0) =~= Seq::<usize>::empty());
        while c < len
            invariant
                c <= len,
                len == row.len(),
                v < n,
                row == list@,
                map@.len() == triangle_count,
                forall|key: usize|
                    key < triangle_count ==> (#[trigger] map@[key as int])@ == inverted_row(
                        rows.take(v as int),
                        key,
                    ) + hits(row.take(c as int), key, v),
            decreases len - c,
        {
            let triangle = list[c];
            proof {
                assert forall|key: usize| key < triangle_count implies #[trigger] hits(
                    row.take(c + 1),
                    key,
                    v,
                ) == if key == triangle {
                    hits(row.take(c as int), key, v).push(v)
                } else {
                    hits(row.take(c as int), key, v)
                } by {
                    lemma_hits_step(row, key, v, c as int);
                }
            }
            if triangle < triangle_count {
                map[triangle].push(v);
            }
            c += 1;
        }
        proof {
            assert(row.take(len as int) =~= row);
            assert forall|key: usize| key < triangle_count implies (#[trigger] map@[key as int])@
                == inverted_row(rows.take(v + 1), key) by {
                lemma_inverted_row_step(rows, key, v as int);
            }
        }
        v += 1;
    }
    assert(rows.take(n as int) =~= rows);
    assert(rows_of(map@).len() == triangle_count);
    map
}

/// Puts `value` into an ascending list, unless it is there already.
fn insert_ascending(list: &mut Vec<usize>, value: usize)
    requires
        strictly_ascending(old(list)@),
    ensures
        strictly_ascending(final(list)@),
        forall|x: usize| final(list)@.contains(x) <==> (old(list)@.contains(x) || x == value),
{
    let len = list.len();
    let mut at: usize = 0;
    while at < len && list[at] < value
        invariant
            at <= len,
            len == list@.len(),
            list@ == old(list)@,
            forall|k: int| 0 <= k < at ==> list@[k] < value,
        decreases len - at,
    {
        at += 1;
    }
    if at < len && list[at] == value {
        assert(list@.contains(value));
        return ;
    }
    let ghost before = list@;
    list.insert(at, value);
    proof {
        let after = list@;
        assert(after == before.insert(at as int, value));
        assert forall|i: int, j: int| 0 <= i < j < after.len() implies after[i] < after[j] by {
            if i < at && j > at {
                assert(after[i] == before[i] && after[j] == before[j - 1]);
            } else if i > at {
                assert(after[i] == before[i - 1] && after[j] == before[j - 1]);
            }
        }
        assert forall|x: usize| after.contains(x) <==> (before.contains(x) || x == value) by {
            if after.contains(x) {
                let k = choose|k: int| 0 <= k < after.len() && after[k] == x;
                if k < at {
                    assert(before[k] == x);
                } else if k > at {
                    assert(before[k - 1] == x);
                }
            }
            if before.contains(x) {
                let k = choose|k: int| 0 <= k < before.len() && before[k] == x;
                if k < at {
                    assert(after[k] == x);
                } else {
                    assert(after[k + 1] == x);
                }
            }
            if x == value {
                assert(after[at as int] == x);
            }
        }
    }
}

/// The neighbours of a cell: the other vertices of its triangles.
///
/// `vertex_triangle_map` gives the triangles of each vertex and
/// `triangle_vertex_map` the vertices of each triangle. The result names each
/// neighbour once, in ascending order. A cell that has no list, and a
/// triangle that has none, contribute nothing.
pub fn find_cell_neighbors(
    cell_idx: usize,
    vertex_triangle_map: &Vec<Vec<usize>>,
    triangle_vertex_map: &Vec<Vec<usize>>,
) -> (neighbors: Vec<usize>)
    ensures
        strictly_ascending(neighbors@),
        forall|other: usize|
            neighbors@.contains(other) <==> linked(
                rows_of(vertex_triangle_map@),
                rows_of(triangle_vertex_map@),
                cell_idx as int,
                other,
            ),
{
    let ghost forward = rows_of(vertex_triangle_map@);
    let ghost backward = rows_of(triangle_vertex_map@);
    let ghost cell = cell_idx as int;
    let mut neighbors: Vec<usize> = Vec::new();
    if cell_idx >= vertex_triangle_map.len() {
        return neighbors;
    }
    let my_triangles = &vertex_triangle_map[cell_idx];
    let count = my_triangles.len();
    let mut i: usize = 0;
    while i < count
        invariant
            i <= count,
            cell == cell_idx,
            cell_idx < vertex_triangle_map@.len(),
            forward == rows_of(vertex_triangle_map@),
            backward == rows_of(triangle_vertex_map@),
            my_triangles@ == forward[cell],
            count == my_triangles@.len(),
            strictly_ascending(neighbors@),
            forall|other: usize|
                neighbors@.contains(other) <==> linked_before(
                    forward,
                    backward,
                    cell,
                    i as int,
                    0,
                    other,
                ),
        decreases count - i,
    {
        let triangle = my_triangles[i];
        if triangle < triangle_vertex_map.len() {
            let triangle_vertices = &triangle_vertex_map[triangle];
            let width = triangle_vertices.len();
            let mut j: usize = 0;
            while j < width
                invariant
                    j <= width,
                    i < count,
                    cell == cell_idx,
                    cell_idx < vertex_triangle_map@.len(),
                    forward == rows_of(vertex_triangle_map@),
                    backward == rows_of(triangle_vertex_map@),
                    my_triangles@ == forward[cell],
                    count == my_triangles@.len(),
                    triangle == my_triangles@[i as int],
                    triangle < triangle_vertex_map@.len(),
                    triangle_vertices@ == backward[triangle as int],
                    width == triangle_vertices@.len(),
                    strictly_ascending(neighbors@),
                    forall|other: usize|
                        neighbors@.contains(other) <==> linked_before(
                            forward,
                            backward,
                            cell,
                            i as int,
                            j as int,
                            other,
                        ),
                decreases width - j,
            {
                let vertex = triangle_vertices[j];
                let ghost seen = neighbors@;
                if vertex != cell_idx {
                    insert_ascending(&mut neighbors, vertex);
                }
                proof {
                    assert(link_at(forward, backward, cell, i as int, j as int, vertex));
                    assert forall|other: usize|
                        neighbors@.contains(other) <==> linked_before(
                            forward,
                            backward,
                            cell,
                            i as int,
                            j + 1,
                            other,
                        ) by {
                        if linked_before(forward, backward, cell, i as int, j + 1, other) {
                            let (a, b) = choose|a: int, b: int|
                                #[trigger] link_at(forward, backward, cell, a, b, other) && (a < i
                                    || (a == i && b < j + 1));
                            if a == i && b == j {
                                assert(other == vertex);
                            } else {
                                assert(linked_before(
                                    forward,
                                    backward,
                                    cell,
                                    i as int,
                                    j as int,
                                    other,
                                ));
                            }
                        }
                        if seen.contains(other) {
                            let (a, b) = choose|a: int, b: int|
                                #[trigger] link_at(forward, backward, cell, a, b, other) && (a < i
                                    || (a == i && b < j));
                            assert(link_at(forward, backward, cell, a, b, other) && (a < i || (a
                                == i && b < j + 1)));
                        }
                    }
                }
                j += 1;
            }
        }
        proof {
            assert forall|other: usize|
                neighbors@.contains(other) <==> linked_before(
                    forward,
                    backward,
                    cell,
                    i + 1,
                    0,
                    other,
                ) by {
                let end: int = if triangle < triangle_vertex_map@.len() {
                    backward[triangle as int].len() as int
                } else {
                    0
                };
                if linked_before(forward, backward, cell, i + 1, 0, other) {
                    let (a, b) = choose|a: int, b: int|
                        #[trigger] link_at(forward, backward, cell, a, b, other) && (a < i + 1 || (a
                            == i + 1 && b < 0));
                    assert(link_at(forward, backward, cell, a, b, other) && (a < i || (a == i && b
                        < end)));
                    assert(linked_before(forward, backward, cell, i as int, end, other));
                }
                if linked_before(forward, backward, cell, i as int, end, other) {
                    let (a, b) = choose|a: int, b: int|
                        #[trigger] link_at(forward, backward, cell, a, b, other) && (a < i || (a
                            == i && b < end));
                    assert(link_at(forward, backward, cell, a, b, other) && (a < i + 1 || (a == i
                        + 1 && b < 0)));
                }
            }
        }
        i += 1;
    }
    proof {
        assert forall|other: usize|
            neighbors@.contains(other) <==> linked(forward, backward, cell, other) by {
            if linked(forward, backward, cell, other) {
                let (a, b) = choose|a: int, b: int| #[trigger]
                    link_at(forward, backward, cell, a, b, other);
                assert(link_at(forward, backward, cell, a, b, other) && (a < count || (a == count
                    && b < 0)));
            }
        }
    }
    neighbors
}

/// The place of `vertex` among the corners of `triangle`.
fn corner_index(triangle: &[u32; 3], vertex: usize) -> (k: usize)
    ensures
        k == corner_of(*triangle, vertex as int),
        k < 3,
{
    if triangle[0] as usize == vertex {
        0
    } else if triangle[1] as usize == vertex {
        1
    } else {
        2
    }
}

/// Puts the corners of a cell in boundary order.
///
/// Each corner comes with the angle under which the seed sees it. The
/// corners are sorted by that angle, ascending, which walks the boundary
/// counter-clockwise; corners with equal angles keep their order, and an
/// angle that is no number sorts after all numbers. With fewer than three
/// corners there is no polygon, and they are returned as given.
pub fn order_voronoi_vertices(corner_list: &Vec<(Point3, Scalar)>) -> (ordered: Vec<Point3>)
    ensures
        ordered@ == ordered_positions(corner_list@),
{
    let count = corner_list.len();
    let mut ordered: Vec<Point3> = Vec::new();
    if count < 3 {
        let mut i: usize = 0;
        while i < count
            invariant
                i <= count,
                count == corner_list@.len(),
                ordered@.len() == i,
                forall|k: int| 0 <= k < i ==> ordered@[k] == corner_list@[k].0,
            decreases count - i,
        {
            ordered.push(corner_list[i].0);
            i += 1;
        }
        assert(ordered@ =~= ordered_positions(corner_list@));
        return ordered;
    }
    let mut keys: Vec<i64> = Vec::new();
    let mut i: usize = 0;
    while i < count
        invariant
            i <= count,
            count == corner_list@.len(),
            keys@.len() == i,
            forall|k: int| 0 <= k < i ==> keys@[k] == corner_list@[k].1.sort_key(),
        decreases count - i,
    {
        keys.push(corner_list[i].1.key());
        i += 1;
    }
    assert(keys@ =~= angle_keys(corner_list@));
    let order = sort_stably(&keys);
    let mut i: usize = 0;
    while i < count
        invariant
            i <= count,
            count == corner_list@.len(),
            order@.len() == count,
            forall|p: int| 0 <= p < count ==> #[trigger] order@[p] < count,
            ordered@.len() == i,
            forall|k: int| 0 <= k < i ==> ordered@[k] == corner_list@[order@[k] as int].0,
        decreases count - i,
    {
        ordered.push(corner_list[order[i]].0);
        i += 1;
    }
    assert(ordered@ =~= ordered_positions(corner_list@));
    ordered
}

/// The cells of a triangulation, one for each vertex, in vertex order.
///
/// `geometry` holds, for each triangle, its circumcentre and the angles
/// under which its corners see it. The cell of a vertex has that vertex as
/// its centre and its place in the vertex list as its id; its boundary is the
/// circumcentres of its triangles in angular order, and its neighbours are
/// the other corners of its triangles. The neighbour relation is mutual.
///
/// Fails with [`VoronoiError::GenerationFailed`] when the triangulation is
/// degenerate: fewer than four vertices, no triangle, a triangle without
/// geometry, or a corner that names no vertex. The error names the first of
/// these that holds.
pub fn generate_cells(hull: &DelaunayResult, geometry: &[TriangleGeometry]) -> (result: Result<
    Vec<RawCell>,
    VoronoiError,
>)
    ensures
        match result {
            Ok(cells) => buildable(*hull, geometry@) && are_cells_of(*hull, geometry@, cells@)
                && is_cell_graph(cells@),
            Err(error) => {
                &&& !buildable(*hull, geometry@)
                &&& error is GenerationFailed
                &&& error.detail() == failure_text(*hull, geometry@)
            },
        },
{
    let vertex_count = hull.vertices.len();
    let triangle_count = hull.triangles.len();
    if vertex_count < 4 {
        return Err(
            VoronoiError::GenerationFailed(
                String::from_str("the triangulation has fewer than four vertices"),
            ),
        );
    }
    if triangle_count == 0 {
        return Err(
            VoronoiError::GenerationFailed(String::from_str("the triangulation has no triangles")),
        );
    }
    if geometry.len() != triangle_count {
        return Err(
            VoronoiError::GenerationFailed(
                String::from_str("the triangulation and its geometry differ in length"),
            ),
        );
    }
    if !hull.is_well_formed() {
        return Err(
            VoronoiError::GenerationFailed(
                String::from_str("a triangle of the triangulation names no vertex"),
            ),
        );
    }
    let vertex_triangle_map = build_vertex_triangle_map(hull.triangles.as_slice(), vertex_count);
    let triangle_vertex_map = build_triangle_vertex_map(&vertex_triangle_map, triangle_count);
    let ghost triangles = hull.triangles@;
    let ghost forward = rows_of(vertex_triangle_map@);
    let ghost backward = rows_of(triangle_vertex_map@);
    let mut cells: Vec<RawCell> = Vec::new();
    let mut v: usize = 0;
    while v < vertex_count
        invariant
            v <= vertex_count,
            vertex_count == hull.vertices@.len(),
            triangle_count == hull.triangles@.len(),
            geometry@.len() == triangle_count,
            triangles == hull.triangles@,
            forward == rows_of(vertex_triangle_map@),
            backward == rows_of(triangle_vertex_map@),
            is_inverse_of(forward, triangle_rows(triangles), vertex_count as int),
            is_inverse_of(backward, forward, triangle_count as int),
            cells@.len() == v,
            forall|u: int| 0 <= u < v ==> is_cell_of(*hull, geometry@, u, #[trigger] cells@[u]),
        decreases vertex_count - v,
    {
        let incident = &vertex_triangle_map[v];
        let count = incident.len();
        let ghost expected = corner_list(triangles, geometry@, v);
        proof {
            assert(incident@ == forward[v as int]);
            assert(incident@ == inverted_row(triangle_rows(triangles), v));
            lemma_inverted_row_ascends(triangle_rows(triangles), v);
        }
        let mut corner_list: Vec<(Point3, Scalar)> = Vec::new();
        let mut i: usize = 0;
        while i < count
            invariant
                i <= count,
                v < vertex_count,
                count == incident@.len(),
                triangle_count == hull.triangles@.len(),
                geometry@.len() == triangle_count,
                triangles == hull.triangles@,
                incident@ == inverted_row(triangle_rows(triangles), v),
                forall|k: int| 0 <= k < incident@.len() ==> #[trigger] incident@[k] < triangle_count,
                expected == self::corner_list(triangles, geometry@, v),
                corner_list@.len() == i,
                forall|k: int| 0 <= k < i ==> corner_list@[k] == expected[k],
            decreases count - i,
        {
            let t = incident[i];
            assert(t < triangle_count);
            let k = corner_index(&hull.triangles[t], v);
            let part = &geometry[t];
            corner_list.push((part.circumcenter, part.angles[k]));
            i += 1;
        }
        assert(corner_list@ =~= expected);
        let vertices = order_voronoi_vertices(&corner_list);
        let neighbors = find_cell_neighbors(v, &vertex_triangle_map, &triangle_vertex_map);
        proof {
            assert forall|other: usize|
                neighbors@.contains(other) <==> (other < vertex_count && share_triangle(
                    triangles,
                    v as int,
                    other as int,
                )) by {
                lemma_linked_iff_share_triangle(triangles, forward, backward, v, other);
            }
        }
        cells.push(RawCell { id: v, center: hull.vertices[v], neighbors, vertices });
        v += 1;
    }
    proof {
        lemma_cells_form_graph(*hull, geometry@, cells@);
    }
    Ok(cells)
}

/// Whether the cells form a graph: each cell's id is its place, its
/// neighbours are other cells, named once and in ascending order, and
/// whenever `a` names `b`, `b` names `a`.
pub open spec fn is_cell_graph(cells: Seq<RawCell>) -> bool {
    &&& forall|v: int| 0 <= v < cells.len() ==> (#[trigger] cells[v]).id == v
    &&& forall|v: int| 0 <= v < cells.len() ==> strictly_ascending((#[trigger] cells[v]).neighbors@)
    &&& forall|v: int, i: int|
        0 <= v < cells.len() && 0 <= i < cells[v].neighbors@.len() ==> {
            &&& (#[trigger] cells[v].neighbors@[i]) < cells.len()
            &&& cells[v].neighbors@[i] != v
        }
    &&& forall|a: usize, b: usize|
        a < cells.len() && b < cells.len() ==> (#[trigger] cells[a as int].neighbors@.contains(b)
            <==> #[trigger] cells[b as int].neighbors@.contains(a))
}

/// Neighbourhood is mutual: `b` is a neighbour of `a` exactly when `a` is a
/// neighbour of `b`, for every two cells of a triangulation.
pub proof fn lemma_neighbors_symmetric(
    hull: DelaunayResult,
    geometry: Seq<TriangleGeometry>,
    cells: Seq<RawCell>,
    a: usize,
    b: usize,
)
    requires
        are_cells_of(hull, geometry, cells),
        a < cells.len(),
        b < cells.len(),
    ensures
        cells[a as int].neighbors@.contains(b) <==> cells[b as int].neighbors@.contains(a),
{
    assert(is_cell_of(hull, geometry, a as int, cells[a as int]));
    assert(is_cell_of(hull, geometry, b as int, cells[b as int]));
    lemma_share_triangle_symmetric(hull.triangles@, a as int, b as int);
}

/// The cells of a triangulation form a graph.
pub proof fn lemma_cells_form_graph(
    hull: DelaunayResult,
    geometry: Seq<TriangleGeometry>,
    cells: Seq<RawCell>,
)
    requires
        are_cells_of(hull, geometry, cells),
    ensures
        is_cell_graph(cells),
{
    assert forall|v: int| 0 <= v < cells.len() implies (#[trigger] cells[v]).id == v
        && strictly_ascending(cells[v].neighbors@) by {
        assert(is_cell_of(hull, geometry, v, cells[v]));
    }
    assert forall|v: int, i: int|
        0 <= v < cells.len() && 0 <= i < cells[v].neighbors@.len() implies (
        #[trigger] cells[v].neighbors@[i]) < cells.len() && cells[v].neighbors@[i] != v by {
        assert(is_cell_of(hull, geometry, v, cells[v]));
        let other = cells[v].neighbors@[i];
        assert(cells[v].neighbors@.contains(other));
    }
    assert forall|a: usize, b: usize| a < cells.len() && b < cells.len() implies (
    #[trigger] cells[a as int].neighbors@.contains(b) <==> #[trigger] cells[b as int].neighbors@.contains(
        a,
    )) by {
        lemma_neighbors_symmetric(hull, geometry, cells, a, b);
    }
}

/// A triangulation has one set of cells only: two lists of cells read from
/// the same triangulation and geometry agree in every id, centre, neighbour
/// list and boundary.
pub proof fn lemma_cells_determined(
    hull: DelaunayResult,
    geometry: Seq<TriangleGeometry>,
    first: Seq<RawCell>,
    second: Seq<RawCell>,
)
    requires
        are_cells_of(hull, geometry, first),
        are_cells_of(hull, geometry, second),
    ensures
        first.len() == second.len(),
        forall|v: int|
            0 <= v < first.len() ==> {
                &&& (#[trigger] first[v]).id == second[v].id
                &&& first[v].center == second[v].center
                &&& first[v].neighbors@ == second[v].neighbors@
                &&& first[v].vertices@ == second[v].vertices@
            },
{
    assert forall|v: int| 0 <= v < first.len() implies {
        &&& (#[trigger] first[v]).id == second[v].id
        &&& first[v].center == second[v].center
        &&& first[v].neighbors@ == second[v].neighbors@
        &&& first[v].vertices@ == second[v].vertices@
    } by {
        assert(is_cell_of(hull, geometry, v, first[v]));
        assert(is_cell_of(hull, geometry, v, second[v]));
        lemma_ascending_unique(first[v].neighbors@, second[v].neighbors@);
    }
}

/// The positions of the corners, in the order given.
pub open spec fn positions(corner_list: Seq<(Point3, Scalar)>) -> Seq<Point3> {
    Seq::new(corner_list.len(), |i: int| corner_list[i].0)
}

/// Ordering rearranges: the boundary has as many corners as were given, and
/// a position is on the boundary exactly when it was given.
pub proof fn lemma_boundary_keeps_corners(corner_list: Seq<(Point3, Scalar)>, position: Point3)
    requires
        corner_list.len() <= usize::MAX,
    ensures
        ordered_positions(corner_list).len() == corner_list.len(),
        ordered_positions(corner_list).contains(position) <==> positions(corner_list).contains(
            position,
        ),
{
    let ordered = ordered_positions(corner_list);
    let given = positions(corner_list);
    if corner_list.len() < 3 {
        assert(ordered =~= given);
    } else {
        let keys = angle_keys(corner_list);
        let order = stable_order(keys);
        lemma_stable_order_exists(keys);
        if ordered.contains(position) {
            let i = choose|i: int| 0 <= i < ordered.len() && ordered[i] == position;
            assert(given[order[i] as int] == position);
        }
        if given.contains(position) {
            let j = choose|j: int| 0 <= j < given.len() && given[j] == position;
            assert(order.contains(j as usize));
            let i = choose|i: int| 0 <= i < order.len() && order[i] == j as usize;
            assert(ordered[i] == position);
        }
    }
}

} // verus!
