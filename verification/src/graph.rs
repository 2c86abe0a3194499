//! The neighbour graph: which cells border which, and how far apart cells
//! are in hops.
//!
//! The graph is a list of neighbour lists, one for each cell id.

use vstd::prelude::*;
use crate::generation::incidence::strictly_ascending;

verus! {

/// Whether the lists form a neighbour graph: each list is ascending and
/// names other cells only, and whenever `a` names `b`, `b` names `a`.
pub open spec fn is_neighbor_graph(graph: Seq<Seq<usize>>) -> bool {
    &&& forall|v: int| 0 <= v < graph.len() ==> strictly_ascending(#[trigger] graph[v])
    &&& forall|v: int, i: int|
        0 <= v < graph.len() && 0 <= i < graph[v].len() ==> {
            &&& (#[trigger] graph[v][i]) < graph.len()
            &&& graph[v][i] != v
        }
    &&& forall|a: usize, b: usize|
        a < graph.len() && b < graph.len() ==> (#[trigger] graph[a as int].contains(b)
            <==> #[trigger] graph[b as int].contains(a))
}

/// Whether cell `from` names `to` as a neighbour.
pub open spec fn hop(graph: Seq<Seq<usize>>, from: usize, to: usize) -> bool {
    from < graph.len() && graph[from as int].contains(to)
}

/// Whether `id` can be reached from `center` in at most `hops` hops. From
/// an id that names no cell nothing is reached, not even the id itself.
pub open spec fn within_hops(graph: Seq<Seq<usize>>, center: usize, hops: nat, id: usize) -> bool
    decreases hops,
{
    if center >= graph.len() {
        false
    } else if hops == 0 {
        id == center
    } else {
        within_hops(graph, center, (hops - 1) as nat, id) || exists|via: usize|
            within_hops(graph, center, (hops - 1) as nat, via) && #[trigger] hop(graph, via, id)
    }
}

/// Whether `id` is exactly `hops` hops from `center`: within `hops`, and not
/// within fewer.
pub open spec fn at_hops(graph: Seq<Seq<usize>>, center: usize, hops: nat, id: usize) -> bool {
    within_hops(graph, center, hops, id) && (hops == 0 || !within_hops(
        graph,
        center,
        (hops - 1) as nat,
        id,
    ))
}

/// Whether a list names nearer cells before farther ones: whatever is
/// within some number of hops stands before whatever is not.
pub open spec fn nearer_first(graph: Seq<Seq<usize>>, center: usize, list: Seq<usize>) -> bool {
    forall|a: int, b: int, hops: nat|
        0 <= a < b < list.len() && #[trigger] within_hops(graph, center, hops, list[b])
            ==> #[trigger] within_hops(graph, center, hops, list[a])
}

/// What is within some number of hops is within any larger number.
pub proof fn lemma_within_grows(
    graph: Seq<Seq<usize>>,
    center: usize,
    fewer: nat,
    more: nat,
    id: usize,
)
    requires
        fewer <= more,
        within_hops(graph, center, fewer, id),
    ensures
        within_hops(graph, center, more, id),
    decreases more,
{
    if fewer < more {
        lemma_within_grows(graph, center, fewer, (more - 1) as nat, id);
    }
}

/// If no cell is exactly `level` hops away, none is further away either:
/// what is within more hops is within `level` hops already.
pub proof fn lemma_empty_level_closes(
    graph: Seq<Seq<usize>>,
    center: usize,
    level: nat,
    more: nat,
    id: usize,
)
    requires
        forall|other: usize| !at_hops(graph, center, level, other),
        level <= more,
        within_hops(graph, center, more, id),
    ensures
        within_hops(graph, center, level, id),
    decreases more,
{
    if level < more {
        let before = (more - 1) as nat;
        if within_hops(graph, center, before, id) {
            lemma_empty_level_closes(graph, center, level, before, id);
        } else {
            let via = choose|via: usize|
                within_hops(graph, center, before, via) && #[trigger] hop(graph, via, id);
            lemma_empty_level_closes(graph, center, level, before, via);
            assert(!at_hops(graph, center, level, via));
            if level == 0 {
                assert(false);
            } else {
                let inner = (level - 1) as nat;
                assert(within_hops(graph, center, inner, via));
                assert(hop(graph, via, id));
                assert(within_hops(graph, center, level, id));
            }
        }
    }
}

/// Within no hops of a cell is the cell alone.
pub proof fn lemma_within_zero(graph: Seq<Seq<usize>>, center: usize, id: usize)
    ensures
        within_hops(graph, center, 0, id) <==> (center < graph.len() && id == center),
{
}

/// Within one hop of a cell are the cell and its neighbours.
pub proof fn lemma_within_one(graph: Seq<Seq<usize>>, center: usize, id: usize)
    ensures
        within_hops(graph, center, 1, id) <==> (center < graph.len() && (id == center
            || graph[center as int].contains(id))),
{
    reveal_with_fuel(within_hops, 2);
    if within_hops(graph, center, 1, id) && id != center {
        let via = choose|via: usize|
            within_hops(graph, center, 0, via) && #[trigger] hop(graph, via, id);
        assert(via == center);
    }
    if center < graph.len() && graph[center as int].contains(id) {
        assert(within_hops(graph, center, 0, center));
        assert(hop(graph, center, id));
    }
}

/// From an id that names no cell, nothing is within any number of hops.
pub proof fn lemma_within_of_invalid(graph: Seq<Seq<usize>>, center: usize, hops: nat, id: usize)
    requires
        center >= graph.len(),
    ensures
        !within_hops(graph, center, hops, id),
{
}

/// Whatever is within reach names a cell.
pub proof fn lemma_within_is_cell(graph: Seq<Seq<usize>>, center: usize, hops: nat, id: usize)
    requires
        is_neighbor_graph(graph),
        within_hops(graph, center, hops, id),
    ensures
        id < graph.len(),
    decreases hops,
{
    if hops > 0 {
        let before = (hops - 1) as nat;
        if within_hops(graph, center, before, id) {
            lemma_within_is_cell(graph, center, before, id);
        } else {
            let via = choose|via: usize|
                within_hops(graph, center, before, via) && #[trigger] hop(graph, via, id);
            let i = choose|i: int| 0 <= i < graph[via as int].len() && graph[via as int][i] == id;
            assert(graph[via as int][i] < graph.len());
        }
    }
}

/// A list without repeats whose members are a cell and its neighbours has
/// one entry more than the cell has neighbours.
pub proof fn lemma_cell_and_neighbors_count(
    graph: Seq<Seq<usize>>,
    center: usize,
    found: Seq<usize>,
)
    requires
        is_neighbor_graph(graph),
        center < graph.len(),
        found.no_duplicates(),
        forall|id: usize| found.contains(id) <==> within_hops(graph, center, 1, id),
    ensures
        found.len() == 1 + graph[center as int].len(),
{
    let neighbors = graph[center as int];
    let listed = seq![center] + neighbors;
    assert forall|i: int, j: int| 0 <= i < listed.len() && 0 <= j < listed.len() && i
        != j implies listed[i] != listed[j] by {
        if i > 0 && j > 0 {
            assert(listed[i] == neighbors[i - 1] && listed[j] == neighbors[j - 1]);
            if i < j {
                assert(neighbors[i - 1] < neighbors[j - 1]);
            } else {
                assert(neighbors[j - 1] < neighbors[i - 1]);
            }
        } else if i > 0 {
            assert(listed[i] == neighbors[i - 1]);
        } else {
            assert(listed[j] == neighbors[j - 1]);
        }
    }
    assert(listed.no_duplicates());
    assert forall|id: usize| found.to_set().contains(id) <==> listed.to_set().contains(id) by {
        lemma_within_one(graph, center, id);
        if listed.contains(id) {
            let k = choose|k: int| 0 <= k < listed.len() && listed[k] == id;
            if k > 0 {
                assert(neighbors[k - 1] == id);
            }
        }
        if id == center {
            assert(listed[0] == id);
        }
        if neighbors.contains(id) {
            let k = choose|k: int| 0 <= k < neighbors.len() && neighbors[k] == id;
            assert(listed[k + 1] == id);
        }
    }
    assert(found.to_set() =~= listed.to_set());
    found.unique_seq_to_set();
    listed.unique_seq_to_set();
}

} // verus!
