//! Which cell is nearest: the rule, stated on distances.
//!
//! The cell of a position is the cell whose centre is nearest to it. A
//! search structure answers that quickly; what it must answer is fixed here,
//! by the plain walk over all distances that any index has to agree with.

use vstd::prelude::*;
use crate::scalar::Scalar;

verus! {

/// Whether place `at` holds the smallest of the distances, and is the first
/// place that does. A distance that is no number counts as larger than every
/// number.
pub open spec fn is_nearest(distances: Seq<Scalar>, at: int) -> bool {
    &&& 0 <= at < distances.len()
    &&& forall|j: int|
        0 <= j < distances.len() ==> distances[at].sort_key() <= (#[trigger] distances[j]).sort_key()
    &&& forall|j: int| 0 <= j < at ==> distances[at].sort_key() < (#[trigger] distances[j]).sort_key()
}

/// The place of the nearest centre, given the distance of each centre from
/// the position asked about: the smallest distance, and among equal
/// distances the lowest place. Nothing if there are no centres.
pub fn nearest_by_distance(distances: &[Scalar]) -> (nearest: Option<usize>)
    ensures
        match nearest {
            Some(at) => is_nearest(distances@, at as int),
            None => distances@.len() == 0,
        },
{
    let count = distances.len();
    if count == 0 {
        return None;
    }
    let mut best: usize = 0;
    let mut best_key = distances[0].key();
    let mut i: usize = 1;
    while i < count
        invariant
            1 <= i <= count,
            count == distances@.len(),
            best < i,
            best_key == distances@[best as int].sort_key(),
            forall|j: int| 0 <= j < i ==> best_key <= (#[trigger] distances@[j]).sort_key(),
            forall|j: int| 0 <= j < best ==> best_key < (#[trigger] distances@[j]).sort_key(),
        decreases count - i,
    {
        let key = distances[i].key();
        if key < best_key {
            best = i;
            best_key = key;
        }
        i += 1;
    }
    Some(best)
}

/// Whether `id` is the nearest of the candidates, each an id with its
/// distance: it has the smallest distance, and the lowest id of those that
/// have it.
pub open spec fn is_nearest_candidate(candidates: Seq<(usize, Scalar)>, id: usize) -> bool {
    exists|at: int|
        {
            &&& 0 <= at < candidates.len()
            &&& (#[trigger] candidates[at]).0 == id
            &&& forall|j: int|
                0 <= j < candidates.len() ==> {
                    &&& candidates[at].1.sort_key() <= (#[trigger] candidates[j]).1.sort_key()
                    &&& candidates[j].1.sort_key() == candidates[at].1.sort_key() ==> id
                        <= candidates[j].0
                }
        }
}

/// The nearest of the candidates that a search index offers, each an id
/// with its distance: the smallest distance, and among equal distances the
/// lowest id, in whatever order the candidates come. Nothing if there are
/// none.
pub fn nearest_candidate(candidates: &[(usize, Scalar)]) -> (nearest: Option<usize>)
    ensures
        match nearest {
            Some(id) => is_nearest_candidate(candidates@, id),
            None => candidates@.len() == 0,
        },
{
    let count = candidates.len();
    if count == 0 {
        return None;
    }
    let mut best: usize = 0;
    let mut best_id = candidates[0].0;
    let mut best_key = candidates[0].1.key();
    let mut i: usize = 1;
    while i < count
        invariant
            1 <= i <= count,
            count == candidates@.len(),
            best < i,
            best_id == candidates@[best as int].0,
            best_key == candidates@[best as int].1.sort_key(),
            forall|j: int|
                0 <= j < i ==> {
                    &&& best_key <= (#[trigger] candidates@[j]).1.sort_key()
                    &&& candidates@[j].1.sort_key() == best_key ==> best_id <= candidates@[j].0
                },
        decreases count - i,
    {
        let id = candidates[i].0;
        let key = candidates[i].1.key();
        if key < best_key || (key == best_key && id < best_id) {
            best = i;
            best_id = id;
            best_key = key;
        }
        i += 1;
    }
    assert(candidates@[best as int].0 == best_id);
    Some(best_id)
}

/// The candidates have one nearest id only.
pub proof fn lemma_nearest_candidate_is_unique(
    candidates: Seq<(usize, Scalar)>,
    first: usize,
    second: usize,
)
    requires
        is_nearest_candidate(candidates, first),
        is_nearest_candidate(candidates, second),
    ensures
        first == second,
{
    let a = choose|at: int|
        {
            &&& 0 <= at < candidates.len()
            &&& (#[trigger] candidates[at]).0 == first
            &&& forall|j: int|
                0 <= j < candidates.len() ==> {
                    &&& candidates[at].1.sort_key() <= (#[trigger] candidates[j]).1.sort_key()
                    &&& candidates[j].1.sort_key() == candidates[at].1.sort_key() ==> first
                        <= candidates[j].0
                }
        };
    let b = choose|at: int|
        {
            &&& 0 <= at < candidates.len()
            &&& (#[trigger] candidates[at]).0 == second
            &&& forall|j: int|
                0 <= j < candidates.len() ==> {
                    &&& candidates[at].1.sort_key() <= (#[trigger] candidates[j]).1.sort_key()
                    &&& candidates[j].1.sort_key() == candidates[at].1.sort_key() ==> second
                        <= candidates[j].0
                }
        };
    assert(candidates[a].1.sort_key() <= candidates[b].1.sort_key());
    assert(candidates[b].1.sort_key() <= candidates[a].1.sort_key());
}

/// An index that offers every centre at the smallest distance, and only
/// centres with their true distances, agrees with the plain walk: the
/// nearest of its candidates is the nearest place.
pub proof fn lemma_candidates_agree_with_walk(
    distances: Seq<Scalar>,
    candidates: Seq<(usize, Scalar)>,
    at: int,
    id: usize,
)
    requires
        is_nearest(distances, at),
        is_nearest_candidate(candidates, id),
        forall|j: int|
            0 <= j < candidates.len() ==> (#[trigger] candidates[j]).0 < distances.len()
                && candidates[j].1 == distances[candidates[j].0 as int],
        exists|j: int| 0 <= j < candidates.len() && (#[trigger] candidates[j]).0 == at,
    ensures
        id == at,
{
    let chosen = choose|c: int|
        {
            &&& 0 <= c < candidates.len()
            &&& (#[trigger] candidates[c]).0 == id
            &&& forall|j: int|
                0 <= j < candidates.len() ==> {
                    &&& candidates[c].1.sort_key() <= (#[trigger] candidates[j]).1.sort_key()
                    &&& candidates[j].1.sort_key() == candidates[c].1.sort_key() ==> id
                        <= candidates[j].0
                }
        };
    let offered = choose|j: int| 0 <= j < candidates.len() && (#[trigger] candidates[j]).0 == at;
    assert(candidates[chosen].1.sort_key() <= candidates[offered].1.sort_key());
    assert(distances[at].sort_key() <= distances[id as int].sort_key());
    if id < at {
        assert(distances[at].sort_key() < distances[id as int].sort_key());
    }
}

/// There is one nearest place only.
pub proof fn lemma_nearest_is_unique(distances: Seq<Scalar>, first: int, second: int)
    requires
        is_nearest(distances, first),
        is_nearest(distances, second),
    ensures
        first == second,
{
    if first < second {
        assert(distances[second].sort_key() < distances[first].sort_key());
    } else if second < first {
        assert(distances[first].sort_key() < distances[second].sort_key());
    }
}

/// A centre at distance zero from the position is nearest unless an earlier
/// centre is at distance zero too, as long as no distance is negative.
pub proof fn lemma_zero_distance_is_nearest(distances: Seq<Scalar>, at: int)
    requires
        0 <= at < distances.len(),
        distances[at].bits == 0,
        forall|j: int| 0 <= j < distances.len() ==> 0 <= (#[trigger] distances[j]).sort_key(),
        forall|j: int| 0 <= j < at ==> 0 < (#[trigger] distances[j]).sort_key(),
    ensures
        is_nearest(distances, at),
{
}

/// A cell finds itself: where its own id is offered at distance zero, no
/// distance offered is below zero and no lower id is offered at distance
/// zero, the nearest candidate is that id.
pub proof fn lemma_own_centre_is_chosen(
    candidates: Seq<(usize, Scalar)>,
    own: int,
    id: usize,
)
    requires
        0 <= own < candidates.len(),
        candidates[own].1.sort_key() == 0,
        forall|j: int| 0 <= j < candidates.len() ==> 0 <= (#[trigger] candidates[j]).1.sort_key(),
        forall|j: int|
            0 <= j < candidates.len() && (#[trigger] candidates[j]).1.sort_key() == 0
                ==> candidates[own].0 <= candidates[j].0,
        is_nearest_candidate(candidates, id),
    ensures
        id == candidates[own].0,
{
    assert(is_nearest_candidate(candidates, candidates[own].0));
    lemma_nearest_candidate_is_unique(candidates, id, candidates[own].0);
}

} // verus!
