//! Stable ordering by key.
//!
//! The corners of a cell's boundary are put in order of their angle round
//! the seed point. Corners with the same angle keep the order in which they
//! were found, so the order is a function of the keys alone.

use vstd::prelude::*;

verus! {

/// Whether place `a` comes before place `b`: by key, and between equal keys
/// by place.
pub open spec fn precedes(keys: Seq<i64>, a: int, b: int) -> bool {
    keys[a] < keys[b] || (keys[a] == keys[b] && a < b)
}

/// Whether `order` lists each of the first `n` places of `keys` so that each
/// listed place precedes those listed after it.
pub open spec fn is_stable_order_of_first(keys: Seq<i64>, n: int, order: Seq<usize>) -> bool {
    &&& order.len() == n
    &&& forall|p: int| 0 <= p < order.len() ==> #[trigger] order[p] < n
    &&& forall|k: usize| k < n ==> #[trigger] order.contains(k)
    &&& forall|p: int, q: int|
        0 <= p < q < order.len() ==> precedes(keys, #[trigger] order[p] as int, #[trigger] order[q] as int)
}

/// Whether `order` is the stable sorting order of `keys`: a listing of all
/// places, ascending by key, equal keys in the order given.
pub open spec fn is_stable_order(keys: Seq<i64>, order: Seq<usize>) -> bool {
    is_stable_order_of_first(keys, keys.len() as int, order)
}

/// The stable sorting order of `keys`.
pub open spec fn stable_order(keys: Seq<i64>) -> Seq<usize> {
    choose|order: Seq<usize>| is_stable_order(keys, order)
}

/// Two stable orders of the same keys agree on their first `upto` places.
proof fn lemma_stable_orders_agree(keys: Seq<i64>, a: Seq<usize>, b: Seq<usize>, upto: int)
    requires
        is_stable_order(keys, a),
        is_stable_order(keys, b),
        0 <= upto <= keys.len(),
    ensures
        forall|p: int| 0 <= p < upto ==> a[p] == b[p],
    decreases upto,
{
    if upto > 0 {
        lemma_stable_orders_agree(keys, a, b, upto - 1);
        let p = upto - 1;
        let x = a[p];
        let y = b[p];
        assert(b.contains(x));
        assert(a.contains(y));
        let q = choose|q: int| 0 <= q < b.len() && b[q] == x;
        let r = choose|r: int| 0 <= r < a.len() && a[r] == y;
        if q < p {
            assert(a[q] == b[q]);
            assert(precedes(keys, a[q] as int, a[p] as int));
        }
        if r < p {
            assert(b[r] == a[r]);
            assert(precedes(keys, b[r] as int, b[p] as int));
        }
        if q > p {
            assert(precedes(keys, b[p] as int, b[q] as int));
        }
        if r > p {
            assert(precedes(keys, a[p] as int, a[r] as int));
        }
    }
}

/// Keys have one stable order only.
pub proof fn lemma_stable_order_unique(keys: Seq<i64>, a: Seq<usize>, b: Seq<usize>)
    requires
        is_stable_order(keys, a),
        is_stable_order(keys, b),
    ensures
        a == b,
{
    lemma_stable_orders_agree(keys, a, b, keys.len() as int);
    assert(a =~= b);
}

/// The stable order is sorted: keys never descend along it, and it names
/// every place once.
pub proof fn lemma_stable_order_sorted(keys: Seq<i64>, order: Seq<usize>)
    requires
        is_stable_order(keys, order),
    ensures
        forall|p: int, q: int|
            0 <= p <= q < order.len() ==> keys[order[p] as int] <= keys[order[q] as int],
        forall|p: int, q: int|
            0 <= p < q < order.len() && keys[order[p] as int] == keys[order[q] as int]
                ==> order[p] < order[q],
        order.no_duplicates(),
{
    assert forall|p: int, q: int| 0 <= p <= q < order.len() implies keys[order[p] as int]
        <= keys[order[q] as int] by {
        if p < q {
            assert(precedes(keys, order[p] as int, order[q] as int));
        }
    }
    assert forall|p: int, q: int|
        0 <= p < q < order.len() && keys[order[p] as int] == keys[order[q] as int]
            implies order[p] < order[q] by {
        assert(precedes(keys, order[p] as int, order[q] as int));
    }
    assert forall|p: int, q: int| 0 <= p < order.len() && 0 <= q < order.len() && p != q
        implies order[p] != order[q] by {
        if p < q {
            assert(precedes(keys, order[p] as int, order[q] as int));
        } else {
            assert(precedes(keys, order[q] as int, order[p] as int));
        }
    }
}

/// The places of the first `n` keys in stable order: each new place goes
/// behind the places whose keys are not above its own.
spec fn built_order(keys: Seq<i64>, n: nat) -> Seq<usize>
    decreases n,
{
    if n == 0 {
        Seq::empty()
    } else {
        let before = built_order(keys, (n - 1) as nat);
        before.insert(slot(keys, before, (n - 1) as int), (n - 1) as usize)
    }
}

/// How many places at the start of `order` have a key not above that of
/// place `k`.
spec fn slot(keys: Seq<i64>, order: Seq<usize>, k: int) -> int
    decreases order.len(),
{
    if order.len() == 0 {
        0
    } else if keys[order.last() as int] <= keys[k] {
        order.len() as int
    } else {
        slot(keys, order.drop_last(), k)
    }
}

proof fn lemma_slot(keys: Seq<i64>, order: Seq<usize>, k: int)
    ensures
        0 <= slot(keys, order, k) <= order.len(),
        slot(keys, order, k) > 0 ==> keys[order[slot(keys, order, k) - 1] as int] <= keys[k],
        forall|p: int|
            slot(keys, order, k) <= p < order.len() ==> keys[k] < keys[#[trigger] order[p] as int],
    decreases order.len(),
{
    if order.len() > 0 && keys[order.last() as int] > keys[k] {
        lemma_slot(keys, order.drop_last(), k);
        let s = slot(keys, order, k);
        assert forall|p: int| s <= p < order.len() implies keys[k] < keys[#[trigger] order[p] as int] by {
            if p < order.len() - 1 {
                assert(order.drop_last()[p] == order[p]);
            }
        }
        if s > 0 {
            assert(order.drop_last()[s - 1] == order[s - 1]);
        }
    }
}

proof fn lemma_built_order(keys: Seq<i64>, n: nat)
    requires
        n <= keys.len(),
        keys.len() <= usize::MAX,
    ensures
        is_stable_order_of_first(keys, n as int, built_order(keys, n)),
    decreases n,
{
    if n > 0 {
        let i = (n - 1) as int;
        lemma_built_order(keys, (n - 1) as nat);
        let before = built_order(keys, (n - 1) as nat);
        let at = slot(keys, before, i);
        lemma_slot(keys, before, i);
        let after = before.insert(at, i as usize);
        assert(after == built_order(keys, n));
        assert forall|p: int| 0 <= p < at implies keys[#[trigger] before[p] as int] <= keys[i] by {
            if p < at - 1 {
                assert(precedes(keys, before[p] as int, before[at - 1] as int));
            }
        }
        assert forall|p: int| 0 <= p < after.len() implies #[trigger] after[p] < n by {
            if p < at {
                assert(after[p] == before[p]);
            } else if p > at {
                assert(after[p] == before[p - 1]);
            }
        }
        assert forall|k: usize| k < n implies #[trigger] after.contains(k) by {
            if k == i {
                assert(after[at] == k);
            } else {
                assert(before.contains(k));
                let p = choose|p: int| 0 <= p < before.len() && before[p] == k;
                if p < at {
                    assert(after[p] == k);
                } else {
                    assert(after[p + 1] == k);
                }
            }
        }
        assert forall|p: int, q: int| 0 <= p < q < after.len() implies precedes(
            keys,
            #[trigger] after[p] as int,
            #[trigger] after[q] as int,
        ) by {
            if q < at {
                assert(after[p] == before[p] && after[q] == before[q]);
            } else if q == at {
                assert(after[p] == before[p]);
            } else if p < at {
                assert(after[p] == before[p] && after[q] == before[q - 1]);
            } else if p == at {
                assert(after[q] == before[q - 1]);
            } else {
                assert(after[p] == before[p - 1] && after[q] == before[q - 1]);
            }
        }
    }
}

/// Every list of keys has a stable order, and `stable_order` is it.
pub proof fn lemma_stable_order_exists(keys: Seq<i64>)
    requires
        keys.len() <= usize::MAX,
    ensures
        is_stable_order(keys, stable_order(keys)),
{
    lemma_built_order(keys, keys.len());
    assert(is_stable_order(keys, built_order(keys, keys.len())));
}

/// The places of `keys` in stable sorting order.
pub fn sort_stably(keys: &Vec<i64>) -> (order: Vec<usize>)
    ensures
        is_stable_order(keys@, order@),
        order@ == stable_order(keys@),
{
    let n = keys.len();
    let mut order: Vec<usize> = Vec::new();
    let mut i: usize = 0;
    while i < n
        invariant
            i <= n,
            n == keys@.len(),
            is_stable_order_of_first(keys@, i as int, order@),
        decreases n - i,
    {
        let mut at: usize = i;
        while at > 0 && keys[order[at - 1]] > keys[i]
            invariant
                at <= i,
                i < n,
                n == keys@.len(),
                is_stable_order_of_first(keys@, i as int, order@),
                forall|p: int| at <= p < i ==> keys@[i as int] < keys@[#[trigger] order@[p] as int],
            decreases at,
        {
            at -= 1;
        }
        let ghost before = order@;
        order.insert(at, i);
        proof {
            let after = order@;
            assert(after == before.insert(at as int, i));
            assert forall|p: int| 0 <= p < at implies keys@[#[trigger] before[p] as int]
                <= keys@[i as int] by {
                if p < at - 1 {
                    assert(precedes(keys@, before[p] as int, before[at - 1] as int));
                }
            }
            assert forall|p: int| 0 <= p < after.len() implies #[trigger] after[p] < i + 1 by {
                if p < at {
                    assert(after[p] == before[p]);
                } else if p > at {
                    assert(after[p] == before[p - 1]);
                }
            }
            assert forall|k: usize| k < i + 1 implies #[trigger] after.contains(k) by {
                if k == i {
                    assert(after[at as int] == k);
                } else {
                    assert(before.contains(k));
                    let p = choose|p: int| 0 <= p < before.len() && before[p] == k;
                    if p < at {
                        assert(after[p] == k);
                    } else {
                        assert(after[p + 1] == k);
                    }
                }
            }
            assert forall|p: int, q: int| 0 <= p < q < after.len() implies precedes(
                keys@,
                #[trigger] after[p] as int,
                #[trigger] after[q] as int,
            ) by {
                if q < at {
                    assert(after[p] == before[p] && after[q] == before[q]);
                } else if q == at {
                    assert(after[p] == before[p]);
                } else if p < at {
                    assert(after[p] == before[p] && after[q] == before[q - 1]);
                } else if p == at {
                    assert(after[q] == before[q - 1]);
                } else {
                    assert(after[p] == before[p - 1] && after[q] == before[q - 1]);
                }
            }
        }
        i += 1;
    }
    proof {
        assert(is_stable_order(keys@, order@));
        lemma_stable_order_unique(keys@, order@, stable_order(keys@));
    }
    order
}

} // verus!
