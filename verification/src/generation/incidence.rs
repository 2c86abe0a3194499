//! Incidence between the vertices and the triangles of a triangulation.
//!
//! A triangulation lists, for each triangle, its three corners. Turning that
//! list round gives, for each vertex, the triangles it is a corner of; turning
//! the result round once more gives each triangle's corners again, this time
//! in ascending order. Both are the same operation on a list of rows, which
//! this module states once ([`inverted_row`]) and then proves facts about.

use vstd::prelude::*;

verus! {

/// `index`, once for each time `key` occurs in `row`.
pub open spec fn hits(row: Seq<usize>, key: usize, index: usize) -> Seq<usize>
    decreases row.len(),
{
    if row.len() == 0 {
        Seq::empty()
    } else if row.last() == key {
        hits(row.drop_last(), key, index).push(index)
    } else {
        hits(row.drop_last(), key, index)
    }
}

/// The indices of the rows that hold `key`, in ascending order, each as
/// often as `key` occurs in that row.
pub open spec fn inverted_row(rows: Seq<Seq<usize>>, key: usize) -> Seq<usize>
    decreases rows.len(),
{
    if rows.len() == 0 {
        Seq::empty()
    } else {
        inverted_row(rows.drop_last(), key) + hits(
            rows.last(),
            key,
            (rows.len() - 1) as usize,
        )
    }
}

/// Whether `map` is `rows` turned round, for the keys below `width`.
pub open spec fn is_inverse_of(map: Seq<Seq<usize>>, rows: Seq<Seq<usize>>, width: int) -> bool {
    &&& map.len() == width
    &&& forall|key: usize| key < width ==> #[trigger] map[key as int] == inverted_row(rows, key)
}

/// The three corners of a triangle as a row.
pub open spec fn corners(triangle: [u32; 3]) -> Seq<usize> {
    seq![triangle[0] as usize, triangle[1] as usize, triangle[2] as usize]
}

/// A triangle list as rows of corners.
pub open spec fn triangle_rows(triangles: Seq<[u32; 3]>) -> Seq<Seq<usize>> {
    Seq::new(triangles.len(), |t: int| corners(triangles[t]))
}

/// The views of a vector of rows.
pub open spec fn rows_of(lists: Seq<Vec<usize>>) -> Seq<Seq<usize>> {
    Seq::new(lists.len(), |i: int| lists[i]@)
}

/// Whether `vertex` is a corner of `triangle`.
pub open spec fn has_corner(triangle: [u32; 3], vertex: int) -> bool {
    triangle[0] == vertex || triangle[1] == vertex || triangle[2] == vertex
}

/// Whether two distinct vertices are corners of one triangle.
pub open spec fn share_triangle(triangles: Seq<[u32; 3]>, a: int, b: int) -> bool {
    a != b && exists|t: int|
        0 <= t < triangles.len() && has_corner(#[trigger] triangles[t], a) && has_corner(
            triangles[t],
            b,
        )
}

/// Whether a list ascends strictly: it is sorted and names nothing twice.
pub open spec fn strictly_ascending(list: Seq<usize>) -> bool {
    forall|i: int, j: int| 0 <= i < j < list.len() ==> list[i] < list[j]
}

/// Whether `other` stands at place `j` of the row that place `i` of
/// `forward[cell]` names in `backward`.
pub open spec fn link_at(
    forward: Seq<Seq<usize>>,
    backward: Seq<Seq<usize>>,
    cell: int,
    i: int,
    j: int,
    other: usize,
) -> bool {
    &&& 0 <= cell < forward.len()
    &&& 0 <= i < forward[cell].len()
    &&& forward[cell][i] < backward.len()
    &&& 0 <= j < backward[forward[cell][i] as int].len()
    &&& backward[forward[cell][i] as int][j] == other
}

/// Whether `other` is another cell that some row named by `forward[cell]`
/// names: with the two adjacency maps of a triangulation, whether `other` is
/// a corner of a triangle of `cell`.
pub open spec fn linked(
    forward: Seq<Seq<usize>>,
    backward: Seq<Seq<usize>>,
    cell: int,
    other: usize,
) -> bool {
    other != cell && exists|i: int, j: int| #[trigger] link_at(forward, backward, cell, i, j, other)
}

/// The links found when the walk over `forward[cell]` stands at row place
/// `i`, element place `j`.
pub open spec fn linked_before(
    forward: Seq<Seq<usize>>,
    backward: Seq<Seq<usize>>,
    cell: int,
    i: int,
    j: int,
    other: usize,
) -> bool {
    other != cell && exists|a: int, b: int|
        #[trigger] link_at(forward, backward, cell, a, b, other) && (a < i || (a == i && b < j))
}

/// One more element of a row adds one hit or none.
pub proof fn lemma_hits_step(row: Seq<usize>, key: usize, index: usize, n: int)
    requires
        0 <= n < row.len(),
    ensures
        hits(row.take(n + 1), key, index) == if row[n] == key {
            hits(row.take(n), key, index).push(index)
        } else {
            hits(row.take(n), key, index)
        },
{
    assert(row.take(n + 1).drop_last() =~= row.take(n));
}

/// One more row adds its hits at the end.
pub proof fn lemma_inverted_row_step(rows: Seq<Seq<usize>>, key: usize, n: int)
    requires
        0 <= n < rows.len(),
    ensures
        inverted_row(rows.take(n + 1), key) == inverted_row(rows.take(n), key) + hits(
            rows[n],
            key,
            n as usize,
        ),
{
    assert(rows.take(n + 1).drop_last() =~= rows.take(n));
}

/// Every hit is `index`, and there is one exactly when `key` is in the row.
pub proof fn lemma_hits_contents(row: Seq<usize>, key: usize, index: usize)
    ensures
        forall|i: int| 0 <= i < hits(row, key, index).len() ==> hits(row, key, index)[i] == index,
        hits(row, key, index).len() > 0 <==> row.contains(key),
        hits(row, key, index).len() <= row.len(),
    decreases row.len(),
{
    if row.len() > 0 {
        lemma_hits_contents(row.drop_last(), key, index);
        let prefix = row.drop_last();
        if row.last() == key {
            assert(row[row.len() - 1] == key);
        } else if row.contains(key) {
            let i = choose|i: int| 0 <= i < row.len() && row[i] == key;
            assert(prefix[i] == key);
        }
        if prefix.contains(key) {
            let i = choose|i: int| 0 <= i < prefix.len() && prefix[i] == key;
            assert(row[i] == key);
        }
    }
}

/// A row index is listed for `key` exactly when that row holds `key`.
pub proof fn lemma_inverted_row_contains(rows: Seq<Seq<usize>>, key: usize, index: usize)
    requires
        rows.len() <= usize::MAX,
    ensures
        inverted_row(rows, key).contains(index) <==> (index < rows.len() && rows[index as int].contains(
            key,
        )),
    decreases rows.len(),
{
    if rows.len() > 0 {
        let prefix = rows.drop_last();
        let last = (rows.len() - 1) as usize;
        let head = inverted_row(prefix, key);
        let tail = hits(rows.last(), key, last);
        lemma_inverted_row_contains(prefix, key, index);
        lemma_hits_contents(rows.last(), key, last);
        let whole = head + tail;
        if whole.contains(index) {
            let i = choose|i: int| 0 <= i < whole.len() && whole[i] == index;
            if i < head.len() {
                assert(head[i] == index);
                assert(head.contains(index));
                assert(rows[index as int] == prefix[index as int]);
            } else {
                assert(tail[i - head.len()] == index);
            }
        }
        if index < rows.len() && rows[index as int].contains(key) {
            if index == last {
                assert(whole[head.len() as int] == tail[0]);
            } else {
                assert(prefix[index as int] == rows[index as int]);
                let i = choose|i: int| 0 <= i < head.len() && head[i] == index;
                assert(whole[i] == index);
            }
        }
    }
}

/// The listed row indices are below the number of rows and never descend.
pub proof fn lemma_inverted_row_ascends(rows: Seq<Seq<usize>>, key: usize)
    requires
        rows.len() <= usize::MAX,
    ensures
        forall|i: int|
            0 <= i < inverted_row(rows, key).len() ==> #[trigger] inverted_row(rows, key)[i]
                < rows.len(),
        forall|i: int, j: int|
            0 <= i <= j < inverted_row(rows, key).len() ==> inverted_row(rows, key)[i]
                <= inverted_row(rows, key)[j],
    decreases rows.len(),
{
    if rows.len() > 0 {
        let prefix = rows.drop_last();
        let last = (rows.len() - 1) as usize;
        lemma_inverted_row_ascends(prefix, key);
        lemma_hits_contents(rows.last(), key, last);
        let head = inverted_row(prefix, key);
        let tail = hits(rows.last(), key, last);
        let whole = inverted_row(rows, key);
        assert(whole == head + tail);
        assert forall|i: int| 0 <= i < whole.len() implies #[trigger] whole[i] < rows.len() by {
            if i < head.len() {
                assert(whole[i] == head[i]);
            } else {
                assert(whole[i] == tail[i - head.len()]);
            }
        }
        assert forall|i: int, j: int| 0 <= i <= j < whole.len() implies whole[i] <= whole[j] by {
            if j < head.len() {
                assert(whole[i] == head[i] && whole[j] == head[j]);
            } else {
                assert(whole[j] == tail[j - head.len()]);
                if i < head.len() {
                    assert(whole[i] == head[i]);
                } else {
                    assert(whole[i] == tail[i - head.len()]);
                }
            }
        }
    }
}

/// A row holds a key exactly when the row of corners holds it.
pub proof fn lemma_corners_contains(triangle: [u32; 3], vertex: usize)
    ensures
        corners(triangle).contains(vertex) <==> has_corner(triangle, vertex as int),
{
    let row = corners(triangle);
    if has_corner(triangle, vertex as int) {
        if triangle[0] == vertex {
            assert(row[0] == vertex);
        } else if triangle[1] == vertex {
            assert(row[1] == vertex);
        } else {
            assert(row[2] == vertex);
        }
    }
}

/// In the vertex-to-triangle map of a triangulation, a triangle is listed
/// for a vertex exactly when the vertex is one of its corners.
pub proof fn lemma_incident_iff_corner(triangles: Seq<[u32; 3]>, vertex: usize, t: usize)
    requires
        triangles.len() <= usize::MAX,
    ensures
        inverted_row(triangle_rows(triangles), vertex).contains(t) <==> (t < triangles.len()
            && has_corner(triangles[t as int], vertex as int)),
{
    lemma_inverted_row_contains(triangle_rows(triangles), vertex, t);
    if t < triangles.len() {
        lemma_corners_contains(triangles[t as int], vertex);
    }
}

/// With the two adjacency maps of a triangulation, a cell is linked to
/// exactly the vertices that share a triangle with it.
pub proof fn lemma_linked_iff_share_triangle(
    triangles: Seq<[u32; 3]>,
    forward: Seq<Seq<usize>>,
    backward: Seq<Seq<usize>>,
    cell: usize,
    other: usize,
)
    requires
        triangles.len() <= usize::MAX,
        forward.len() <= usize::MAX,
        is_inverse_of(forward, triangle_rows(triangles), forward.len() as int),
        is_inverse_of(backward, forward, triangles.len() as int),
        cell < forward.len(),
    ensures
        linked(forward, backward, cell as int, other) <==> (other < forward.len()
            && share_triangle(triangles, cell as int, other as int)),
{
    let c = cell as int;
    if linked(forward, backward, c, other) {
        let (i, j) = choose|i: int, j: int| #[trigger] link_at(forward, backward, c, i, j, other);
        let t = forward[c][i];
        assert(forward[c].contains(t));
        lemma_incident_iff_corner(triangles, cell, t);
        assert(backward[t as int] == inverted_row(forward, t));
        assert(backward[t as int].contains(other));
        lemma_inverted_row_contains(forward, t, other);
        lemma_incident_iff_corner(triangles, other, t);
        assert(has_corner(triangles[t as int], c) && has_corner(triangles[t as int], other as int));
    }
    if other < forward.len() && share_triangle(triangles, c, other as int) {
        let t = choose|t: int|
            0 <= t < triangles.len() && has_corner(#[trigger] triangles[t], c) && has_corner(
                triangles[t],
                other as int,
            );
        let tu = t as usize;
        lemma_incident_iff_corner(triangles, cell, tu);
        lemma_incident_iff_corner(triangles, other, tu);
        assert(forward[c] == inverted_row(triangle_rows(triangles), cell));
        assert(forward[other as int] == inverted_row(triangle_rows(triangles), other));
        let i = choose|i: int| 0 <= i < forward[c].len() && forward[c][i] == tu;
        lemma_inverted_row_contains(forward, tu, other);
        assert(backward[t] == inverted_row(forward, tu));
        let j = choose|j: int| 0 <= j < backward[t].len() && backward[t][j] == other;
        assert(link_at(forward, backward, c, i, j, other));
    }
}

/// Sharing a triangle is mutual.
pub proof fn lemma_share_triangle_symmetric(triangles: Seq<[u32; 3]>, a: int, b: int)
    ensures
        share_triangle(triangles, a, b) <==> share_triangle(triangles, b, a),
{
    if share_triangle(triangles, a, b) {
        let t = choose|t: int|
            0 <= t < triangles.len() && has_corner(#[trigger] triangles[t], a) && has_corner(
                triangles[t],
                b,
            );
        assert(has_corner(triangles[t], b) && has_corner(triangles[t], a));
    }
    if share_triangle(triangles, b, a) {
        let t = choose|t: int|
            0 <= t < triangles.len() && has_corner(#[trigger] triangles[t], b) && has_corner(
                triangles[t],
                a,
            );
        assert(has_corner(triangles[t], a) && has_corner(triangles[t], b));
    }
}

/// Two ascending lists with the same members agree on their first `upto`
/// places.
proof fn lemma_ascending_agree(a: Seq<usize>, b: Seq<usize>, upto: int)
    requires
        strictly_ascending(a),
        strictly_ascending(b),
        forall|x: usize| a.contains(x) <==> b.contains(x),
        0 <= upto <= a.len(),
        upto <= b.len(),
    ensures
        forall|p: int| 0 <= p < upto ==> a[p] == b[p],
    decreases upto,
{
    if upto > 0 {
        lemma_ascending_agree(a, b, upto - 1);
        let p = upto - 1;
        let x = a[p];
        let y = b[p];
        assert(a.contains(x));
        assert(b.contains(y));
        let q = choose|q: int| 0 <= q < b.len() && b[q] == x;
        let r = choose|r: int| 0 <= r < a.len() && a[r] == y;
        if q < p {
            assert(a[q] == b[q]);
        }
        if r < p {
            assert(b[r] == a[r]);
        }
    }
}

/// An ascending list is determined by its members.
pub proof fn lemma_ascending_unique(a: Seq<usize>, b: Seq<usize>)
    requires
        strictly_ascending(a),
        strictly_ascending(b),
        forall|x: usize| a.contains(x) <==> b.contains(x),
    ensures
        a == b,
{
    if a.len() < b.len() {
        lemma_ascending_agree(a, b, a.len() as int);
        let z = b[a.len() as int];
        assert(b.contains(z));
        let r = choose|r: int| 0 <= r < a.len() && a[r] == z;
        assert(b[r] == z);
    } else if b.len() < a.len() {
        lemma_ascending_agree(a, b, b.len() as int);
        let z = a[b.len() as int];
        assert(a.contains(z));
        let r = choose|r: int| 0 <= r < b.len() && b[r] == z;
        assert(a[r] == z);
    } else {
        lemma_ascending_agree(a, b, a.len() as int);
    }
    assert(a =~= b);
}

} // verus!
