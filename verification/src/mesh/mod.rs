//! The mesh of a planet: each cell as a fan of triangles round its centre.

pub mod colors;

use vstd::prelude::*;
use crate::cell::VoronoiCell;
use crate::mesh::colors::{ColorMapper, TerrainColor};
use crate::planet::VoronoiPlanet;
use crate::point::Point3;
use crate::scalar::Scalar;

verus! {

/// The pattern of 1.
pub const OPAQUE_BITS: u32 = 0x3f80_0000;

/// Vertex data for any renderer.
///
/// The four lists go together: vertex `i` has position `positions[i]`,
/// outward direction `normals[i]` and colour `colors[i]`, and every three
/// entries of `indices` name the corners of one triangle.
///
/// A direction is given as the vertex's position seen from the centre of
/// the sphere, so it has the length of the radius; scale it to length one
/// where a unit normal is wanted.
#[derive(Debug, Clone)]
pub struct MeshData {
    pub positions: Vec<Point3>,
    pub normals: Vec<Point3>,
    pub colors: Vec<TerrainColor>,
    pub indices: Vec<u32>,
}

/// What a mesh holds.
pub struct MeshView {
    pub positions: Seq<Point3>,
    pub normals: Seq<Point3>,
    pub colors: Seq<TerrainColor>,
    pub indices: Seq<u32>,
}

impl View for MeshData {
    type V = MeshView;

    open spec fn view(&self) -> MeshView {
        MeshView {
            positions: self.positions@,
            normals: self.normals@,
            colors: self.colors@,
            indices: self.indices@,
        }
    }
}

/// The mesh without vertices.
pub open spec fn empty_mesh() -> MeshView {
    MeshView {
        positions: Seq::empty(),
        normals: Seq::empty(),
        colors: Seq::empty(),
        indices: Seq::empty(),
    }
}

/// The corner after corner `i` on a boundary of `count` corners.
pub open spec fn next_corner(i: int, count: int) -> int {
    if i + 1 == count {
        0
    } else {
        i + 1
    }
}

/// Entry `k` of the indices of a fan whose centre is vertex `base` and
/// whose boundary has `count` corners: triangle `k / 3` joins the centre,
/// corner `k / 3` and the corner after it.
pub open spec fn fan_index(base: int, count: int, k: int) -> int {
    if k % 3 == 0 {
        base
    } else if k % 3 == 1 {
        base + 1 + k / 3
    } else {
        base + 1 + next_corner(k / 3, count)
    }
}

/// The indices of a fan: one triangle for each corner of the boundary.
pub open spec fn fan_indices(base: int, count: int) -> Seq<u32> {
    Seq::new((3 * count) as nat, |k: int| fan_index(base, count, k) as u32)
}

/// Whether a fan of `count` boundary corners can be added: its vertices
/// must still have indices of 32 bits.
pub open spec fn fan_fits(mesh: MeshView, count: int) -> bool {
    mesh.positions.len() + 1 + count <= u32::MAX
}

/// The mesh with the fan of one cell added: the centre and the boundary as
/// new vertices, all of one colour, and the fan's triangles.
pub open spec fn with_fan(
    mesh: MeshView,
    center: Point3,
    vertices: Seq<Point3>,
    color: TerrainColor,
) -> MeshView {
    let ring = seq![center] + vertices;
    MeshView {
        positions: mesh.positions + ring,
        normals: mesh.normals + ring,
        colors: mesh.colors + Seq::new(ring.len(), |i: int| color),
        indices: mesh.indices + fan_indices(mesh.positions.len() as int, vertices.len() as int),
    }
}

/// Whether a cell has a polygon to draw: at least three corners.
pub open spec fn has_polygon<T>(cell: VoronoiCell<T>) -> bool {
    cell.vertices@.len() >= 3
}

/// The mesh of the cells, cell `i` in colour `colors[i]`: the fans of the
/// cells that have a polygon, in order. A fan that no longer fits is left
/// out.
pub open spec fn mesh_of<T>(cells: Seq<VoronoiCell<T>>, colors: Seq<TerrainColor>) -> MeshView
    decreases cells.len(),
{
    if cells.len() == 0 {
        empty_mesh()
    } else {
        let before = mesh_of(cells.drop_last(), colors.drop_last());
        let cell = cells.last();
        if has_polygon(cell) && fan_fits(before, cell.vertices@.len() as int) {
            with_fan(before, cell.center, cell.vertices@, colors.last())
        } else {
            before
        }
    }
}

/// Whether the lists of a mesh go together: as many directions and colours
/// as positions, whole triangles, and every index names a vertex.
pub open spec fn is_consistent(mesh: MeshView) -> bool {
    &&& mesh.normals.len() == mesh.positions.len()
    &&& mesh.colors.len() == mesh.positions.len()
    &&& mesh.indices.len() % 3 == 0
    &&& forall|k: int| 0 <= k < mesh.indices.len() ==> (#[trigger] mesh.indices[k]) < mesh.positions.len()
}

/// Adding a fan that fits keeps a mesh consistent.
pub proof fn lemma_fan_keeps_consistent(
    mesh: MeshView,
    center: Point3,
    vertices: Seq<Point3>,
    color: TerrainColor,
)
    requires
        is_consistent(mesh),
        fan_fits(mesh, vertices.len() as int),
    ensures
        is_consistent(with_fan(mesh, center, vertices, color)),
{
    let after = with_fan(mesh, center, vertices, color);
    let base = mesh.positions.len() as int;
    let count = vertices.len() as int;
    let fan = fan_indices(base, count);
    assert forall|k: int| 0 <= k < after.indices.len() implies (#[trigger] after.indices[k])
        < after.positions.len() by {
        if k < mesh.indices.len() {
            assert(after.indices[k] == mesh.indices[k]);
        } else {
            let f = k - mesh.indices.len();
            assert(after.indices[k] == fan[f]);
            assert(0 <= f / 3 < count);
            assert(0 <= fan_index(base, count, f) < base + 1 + count);
        }
    }
}

/// The mesh of any cells is consistent.
pub proof fn lemma_mesh_is_consistent<T>(cells: Seq<VoronoiCell<T>>, colors: Seq<TerrainColor>)
    ensures
        is_consistent(mesh_of(cells, colors)),
    decreases cells.len(),
{
    if cells.len() > 0 {
        lemma_mesh_is_consistent(cells.drop_last(), colors.drop_last());
        let before = mesh_of(cells.drop_last(), colors.drop_last());
        let cell = cells.last();
        if has_polygon(cell) && fan_fits(before, cell.vertices@.len() as int) {
            lemma_fan_keeps_consistent(before, cell.center, cell.vertices@, colors.last());
        }
    }
}

impl MeshData {
    /// A mesh without vertices.
    pub fn new() -> (mesh: Self)
        ensures
            mesh@ == empty_mesh(),
    {
        MeshData {
            positions: Vec::new(),
            normals: Vec::new(),
            colors: Vec::new(),
            indices: Vec::new(),
        }
    }

    /// The number of vertices.
    pub fn vertex_count(&self) -> (count: usize)
        ensures
            count == self@.positions.len(),
    {
        self.positions.len()
    }

    /// The number of whole triangles.
    pub fn triangle_count(&self) -> (count: usize)
        ensures
            count == self@.indices.len() / 3,
    {
        self.indices.len() / 3
    }

    /// Whether the mesh has no vertices.
    pub fn is_empty(&self) -> (empty: bool)
        ensures
            empty == (self@.positions.len() == 0),
    {
        self.positions.len() == 0
    }
}

impl Default for MeshData {
    fn default() -> (mesh: Self)
        ensures
            mesh@ == empty_mesh(),
    {
        MeshData::new()
    }
}

/// Adds the fan of one cell to the mesh.
pub fn triangulate_cell(
    center: Point3,
    vertices: &[Point3],
    color: TerrainColor,
    mesh: &mut MeshData,
)
    requires
        fan_fits(old(mesh)@, vertices@.len() as int),
    ensures
        final(mesh)@ == with_fan(old(mesh)@, center, vertices@, color),
{
    let ghost start = mesh@;
    let ghost ring = seq![center] + vertices@;
    let length = mesh.positions.len();
    let base_idx = length as u32;
    let count = vertices.len();

    mesh.positions.push(center);
    mesh.normals.push(center);
    mesh.colors.push(color);

    let mut i: usize = 0;
    while i < count
        invariant
            i <= count,
            count == vertices@.len(),
            ring == seq![center] + vertices@,
            mesh@.positions == start.positions + ring.take(i + 1),
            mesh@.normals == start.normals + ring.take(i + 1),
            mesh@.colors == start.colors + Seq::new((i + 1) as nat, |k: int| color),
            mesh@.indices == start.indices,
        decreases count - i,
    {
        mesh.positions.push(vertices[i]);
        mesh.normals.push(vertices[i]);
        mesh.colors.push(color);
        proof {
            assert(ring.take(i + 2) =~= ring.take(i + 1).push(vertices@[i as int]));
            assert(Seq::new((i + 2) as nat, |k: int| color) =~= Seq::new(
                (i + 1) as nat,
                |k: int| color,
            ).push(color));
        }
        i += 1;
    }
    assert(ring.take(count + 1) =~= ring);

    let ghost fan = fan_indices(length as int, count as int);
    let mut i: usize = 0;
    while i < count
        invariant
            i <= count,
            count == vertices@.len(),
            length + 1 + count <= u32::MAX,
            base_idx == length,
            fan == fan_indices(length as int, count as int),
            mesh@.positions == start.positions + ring,
            mesh@.normals == start.normals + ring,
            mesh@.colors == start.colors + Seq::new(ring.len(), |k: int| color),
            mesh@.indices == start.indices + fan.take(3 * i),
        decreases count - i,
    {
        let next_i: usize = if i + 1 == count {
            0
        } else {
            i + 1
        };
        let ghost before = mesh@.indices;
        mesh.indices.push(base_idx);
        mesh.indices.push(base_idx + 1 + i as u32);
        mesh.indices.push(base_idx + 1 + next_i as u32);
        proof {
            let k = 3 * i as int;
            assert(fan[k] == base_idx);
            assert(fan[k + 1] == base_idx + 1 + i);
            assert(fan[k + 2] == base_idx + 1 + next_i);
            assert(fan.take(k + 3) =~= fan.take(k).push(fan[k]).push(fan[k + 1]).push(fan[k + 2]));
        }
        i += 1;
    }
    assert(fan.take(3 * count) =~= fan);
}

/// Whether the cell at place `at` is hidden: a list of visible cells is
/// given and does not name its id.
pub open spec fn is_hidden<T>(
    cells: Seq<VoronoiCell<T>>,
    visible_cells: Option<&[usize]>,
    at: int,
) -> bool {
    match visible_cells {
        Some(visible) => !visible@.contains(cells[at].id),
        None => false,
    }
}

/// Whether `colors` are the colours of the cells under fog: for a hidden
/// cell the hidden colour, for a visible one a colour that the mapper gives
/// for the cell's terrain.
pub open spec fn are_colors_of<T, C: ColorMapper<T>>(
    color_mapper: &C,
    cells: Seq<VoronoiCell<T>>,
    visible_cells: Option<&[usize]>,
    hidden_color: TerrainColor,
    colors: Seq<TerrainColor>,
) -> bool {
    &&& colors.len() == cells.len()
    &&& forall|i: int|
        0 <= i < colors.len() ==> if is_hidden(cells, visible_cells, i) {
            #[trigger] colors[i] == hidden_color
        } else {
            call_ensures(C::map_color, (color_mapper, &cells[i].terrain), colors[i])
        }
}

/// For each cell id, whether the list names it.
fn visibility_mask(visible: &[usize], cell_count: usize) -> (mask: Vec<bool>)
    ensures
        mask@.len() == cell_count,
        forall|id: usize| id < cell_count ==> (#[trigger] mask@[id as int] <==> visible@.contains(id)),
{
    let mut mask: Vec<bool> = Vec::new();
    let mut k: usize = 0;
    while k < cell_count
        invariant
            k <= cell_count,
            mask@.len() == k,
            forall|i: int| 0 <= i < k ==> !mask@[i],
        decreases cell_count - k,
    {
        mask.push(false);
        k += 1;
    }
    let count = visible.len();
    let mut i: usize = 0;
    while i < count
        invariant
            i <= count,
            count == visible@.len(),
            mask@.len() == cell_count,
            forall|id: usize|
                id < cell_count ==> (#[trigger] mask@[id as int] <==> visible@.take(i as int).contains(
                    id,
                )),
        decreases count - i,
    {
        let id = visible[i];
        if id < cell_count {
            mask[id] = true;
        }
        proof {
            let before = visible@.take(i as int);
            let after = visible@.take(i + 1);
            assert(after =~= before.push(id));
            assert forall|other: usize| after.contains(other) <==> (before.contains(other) || other
                == id) by {
                if before.contains(other) {
                    let k = choose|k: int| 0 <= k < before.len() && before[k] == other;
                    assert(after[k] == other);
                }
                if other == id {
                    assert(after[i as int] == other);
                }
                if after.contains(other) {
                    let k = choose|k: int| 0 <= k < after.len() && after[k] == other;
                    if k < i {
                        assert(before[k] == other);
                    }
                }
            }
        }
        i += 1;
    }
    assert(visible@.take(count as int) =~= visible@);
    mask
}

/// The mesh of a planet, every cell in the colour that the mapper gives for
/// its terrain.
pub fn generate_mesh<T, C>(planet: &VoronoiPlanet<T>, color_mapper: &C) -> (mesh: MeshData) where
    C: ColorMapper<T>,

    ensures
        is_consistent(mesh@),
        exists|colors: Seq<TerrainColor>|
            {
                &&& colors.len() == planet.all_cells().len()
                &&& forall|i: int|
                    0 <= i < colors.len() ==> call_ensures(
                        C::map_color,
                        (color_mapper, &planet.all_cells()[i].terrain),
                        #[trigger] colors[i],
                    )
                &&& mesh@ == #[trigger] mesh_of(planet.all_cells(), colors)
            },
{
    let hidden_color = [
        Scalar { bits: 0 },
        Scalar { bits: 0 },
        Scalar { bits: 0 },
        Scalar { bits: OPAQUE_BITS },
    ];
    generate_mesh_with_visibility(planet, color_mapper, None, hidden_color)
}

/// The mesh of a planet under fog: the cells that `visible_cells` names in
/// the colour of their terrain, the others in `hidden_color`. Without a
/// list every cell is visible.
///
/// Each cell with at least three corners becomes a fan of triangles round
/// its centre; cells with fewer are left out.
pub fn generate_mesh_with_visibility<T, C>(
    planet: &VoronoiPlanet<T>,
    color_mapper: &C,
    visible_cells: Option<&[usize]>,
    hidden_color: TerrainColor,
) -> (mesh: MeshData) where C: ColorMapper<T>
    ensures
        is_consistent(mesh@),
        exists|colors: Seq<TerrainColor>|
            {
                &&& are_colors_of(
                    color_mapper,
                    planet.all_cells(),
                    visible_cells,
                    hidden_color,
                    colors,
                )
                &&& mesh@ == #[trigger] mesh_of(planet.all_cells(), colors)
            },
{
    let cells = planet.cells();
    let cell_count = cells.len();
    let mask: Option<Vec<bool>> = match visible_cells {
        Some(visible) => Some(visibility_mask(visible, cell_count)),
        None => None,
    };
    let mut mesh = MeshData::new();
    let ghost mut colors: Seq<TerrainColor> = Seq::empty();
    let mut at: usize = 0;
    assert(cells@.take(0) =~= Seq::<VoronoiCell<T>>::empty());
    while at < cell_count
        invariant
            at <= cell_count,
            cell_count == cells@.len(),
            cells@ == planet.all_cells(),
            forall|i: int| 0 <= i < cells@.len() ==> (#[trigger] cells@[i]).id == i,
            match (visible_cells, mask) {
                (Some(visible), Some(mask)) => mask@.len() == cell_count && forall|id: usize|
                    id < cell_count ==> (#[trigger] mask@[id as int] <==> visible@.contains(id)),
                (None, None) => true,
                _ => false,
            },
            colors.len() == at,
            forall|i: int|
                0 <= i < at ==> if is_hidden(cells@, visible_cells, i) {
                    #[trigger] colors[i] == hidden_color
                } else {
                    call_ensures(C::map_color, (color_mapper, &cells@[i].terrain), colors[i])
                },
            mesh@ == mesh_of(cells@.take(at as int), colors),
        decreases cell_count - at,
    {
        let cell = &cells[at];
        let is_visible = match &mask {
            Some(mask) => mask[cell.id],
            None => true,
        };
        let color = if is_visible {
            color_mapper.map_color(&cell.terrain)
        } else {
            hidden_color
        };
        let ghost before = mesh@;
        let corner_count = cell.vertices.len();
        if corner_count >= 3 && corner_count < u32::MAX as usize && mesh.positions.len()
            <= u32::MAX as usize - 1 - corner_count {
            triangulate_cell(cell.center, cell.vertices.as_slice(), color, &mut mesh);
        }
        proof {
            let longer = cells@.take(at + 1);
            let grown = colors.push(color);
            assert(longer.drop_last() =~= cells@.take(at as int));
            assert(grown.drop_last() =~= colors);
            assert(longer.last() == cells@[at as int]);
            assert(mesh@ == mesh_of(longer, grown));
            colors = grown;
        }
        at += 1;
    }
    proof {
        assert(cells@.take(cell_count as int) =~= cells@);
        lemma_mesh_is_consistent(cells@, colors);
    }
    mesh
}

} // verus!
