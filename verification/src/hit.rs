//! Hit distances and the choice of the nearest hit.
//!
//! A hit distance is a single-precision number, handled here by its IEEE 754
//! bit pattern. Distances are ranked by the standard's total order, which is
//! the order of an integer key computed from the pattern, so the choice of the
//! nearest hit is integer work throughout.

use vstd::prelude::*;

verus! {

/// The rank of a bit pattern in the IEEE 754 total order.
///
/// A pattern with a clear sign bit ranks as the number it spells, from
/// positive zero up through the finite numbers and infinity to the positive
/// NaNs. A pattern with the sign bit set ranks below all of those, the larger
/// magnitude the lower: negative zero is -1 and the negative NaNs come last.
pub open spec fn order_key(bits: u32) -> int {
    if bits < 0x8000_0000 {
        bits as int
    } else {
        0x7FFF_FFFF - bits
    }
}

/// Whether `hits[k]` is the hit that wins: a hit whose distance ranks no
/// higher than any other, and strictly lower than every hit before it, so
/// that of several equally near hits the first one wins.
pub open spec fn is_nearest(hits: Seq<Option<u32>>, k: int) -> bool {
    &&& 0 <= k < hits.len()
    &&& hits[k] is Some
    &&& forall|j: int|
        0 <= j < hits.len() && (#[trigger] hits[j]) is Some ==> if j < k {
            order_key(hits[k]->0) < order_key(hits[j]->0)
        } else {
            order_key(hits[k]->0) <= order_key(hits[j]->0)
        }
}

/// Whether no candidate is a hit.
pub open spec fn all_miss(hits: Seq<Option<u32>>) -> bool {
    forall|j: int| 0 <= j < hits.len() ==> (#[trigger] hits[j]) is None
}

/// Computes the rank of a bit pattern in the IEEE 754 total order.
pub fn total_order_key(bits: u32) -> (key: i32)
    ensures
        key == order_key(bits),
{
    if bits < 0x8000_0000 {
        bits as i32
    } else {
        let magnitude: u32 = bits - 0x8000_0000;
        -1 - (magnitude as i32)
    }
}

/// Whether distance `a` ranks strictly below distance `b`.
pub fn is_nearer(a: u32, b: u32) -> (nearer: bool)
    ensures
        nearer == (order_key(a) < order_key(b)),
{
    total_order_key(a) < total_order_key(b)
}

/// Picks the nearest of the candidate hits, one candidate per object and
/// `None` for an object that the ray misses.
pub fn nearest_hit(hits: &Vec<Option<u32>>) -> (winner: Option<usize>)
    ensures
        match winner {
            Some(k) => is_nearest(hits@, k as int),
            None => all_miss(hits@),
        },
{
    let mut best: Option<(usize, u32)> = None;
    let mut i: usize = 0;
    while i < hits.len()
        invariant
            i <= hits@.len(),
            match best {
                Some((k, t)) => k < i && hits@[k as int] == Some(t) && is_nearest(
                    hits@.take(i as int),
                    k as int,
                ),
                None => all_miss(hits@.take(i as int)),
            },
        decreases hits@.len() - i,
    {
        let ghost before = hits@.take(i as int);
        let ghost after = hits@.take(i + 1);
        assert(forall|j: int| 0 <= j < i ==> after[j] == before[j]);
        assert(after[i as int] == hits@[i as int]);
        match hits[i] {
            Some(t) => {
                match best {
                    Some((k, u)) => {
                        if is_nearer(t, u) {
                            best = Some((i, t));
                        }
                    },
                    None => {
                        best = Some((i, t));
                    },
                }
            },
            None => {},
        }
        i += 1;
    }
    assert(hits@.take(i as int) == hits@);
    match best {
        Some((k, _)) => Some(k),
        None => None,
    }
}

/// The total order tells any two bit patterns apart.
pub proof fn lemma_order_key_injective(a: u32, b: u32)
    ensures
        order_key(a) == order_key(b) <==> a == b,
{
}

/// At most one candidate is the nearest hit.
pub proof fn lemma_nearest_is_unique(hits: Seq<Option<u32>>, i: int, j: int)
    requires
        is_nearest(hits, i),
        is_nearest(hits, j),
    ensures
        i == j,
{
}

/// There is a nearest hit exactly when some candidate is a hit.
pub proof fn lemma_nearest_exists(hits: Seq<Option<u32>>)
    ensures
        all_miss(hits) <==> !exists|k: int| is_nearest(hits, k),
    decreases hits.len(),
{
    if hits.len() > 0 {
        let front = hits.drop_last();
        let last = hits.len() - 1;
        lemma_nearest_exists(front);
        assert(forall|j: int| 0 <= j < last ==> front[j] == hits[j]);
        if all_miss(hits) {
            assert forall|k: int| !is_nearest(hits, k) by {
                if 0 <= k < hits.len() {
                    assert(hits[k] is None);
                }
            }
        } else if all_miss(front) {
            assert(hits[last] is Some);
            assert(is_nearest(hits, last));
        } else {
            let k = choose|k: int| is_nearest(front, k);
            if hits[last] is Some && order_key(hits[last]->0) < order_key(hits[k]->0) {
                assert(is_nearest(hits, last));
            } else {
                assert(is_nearest(hits, k));
            }
        }
    }
}

/// The distance of the nearest hit does not depend on the order of the
/// candidates: two sequences that hold the same candidates, each as often as
/// the other, have nearest hits at the same distance.
pub proof fn lemma_nearest_distance_ignores_order(
    a: Seq<Option<u32>>,
    b: Seq<Option<u32>>,
    i: int,
    j: int,
)
    requires
        a.to_multiset() == b.to_multiset(),
        is_nearest(a, i),
        is_nearest(b, j),
    ensures
        a[i] == b[j],
{
    vstd::seq_lib::to_multiset_contains(a, a[i]);
    vstd::seq_lib::to_multiset_contains(b, a[i]);
    vstd::seq_lib::to_multiset_contains(b, b[j]);
    vstd::seq_lib::to_multiset_contains(a, b[j]);
    assert(a.contains(a[i]));
    assert(b.contains(b[j]));
    let jj = choose|jj: int| 0 <= jj < b.len() && b[jj] == a[i];
    let ii = choose|ii: int| 0 <= ii < a.len() && a[ii] == b[j];
    assert(b[jj] is Some);
    assert(a[ii] is Some);
    lemma_order_key_injective(a[i]->0, b[j]->0);
}

/// Whether `b` holds the items of `a` in another order: item `k` of `b` is
/// item `from[k]` of `a`, and item `k` of `a` is item `to[k]` of `b`.
pub open spec fn is_reordering<T>(a: Seq<T>, b: Seq<T>, from: Seq<int>, to: Seq<int>) -> bool {
    &&& a.len() == b.len() == from.len() == to.len()
    &&& forall|k: int|
        0 <= k < b.len() ==> 0 <= #[trigger] from[k] < a.len() && to[from[k]] == k && b[k]
            == a[from[k]]
    &&& forall|k: int|
        0 <= k < a.len() ==> 0 <= #[trigger] to[k] < b.len() && from[to[k]] == k
}

/// Whether no other candidate is as near as `hits[k]`.
pub open spec fn is_strictly_nearest(hits: Seq<Option<u32>>, k: int) -> bool {
    &&& is_nearest(hits, k)
    &&& forall|j: int|
        0 <= j < hits.len() && j != k && (#[trigger] hits[j]) is Some ==> order_key(hits[k]->0)
            < order_key(hits[j]->0)
}

/// Nearest wins whatever the order of the scene: when one object is strictly
/// nearer than all others, that same object wins after any reordering.
pub proof fn lemma_same_object_wins(
    a: Seq<Option<u32>>,
    b: Seq<Option<u32>>,
    from: Seq<int>,
    to: Seq<int>,
    i: int,
)
    requires
        is_reordering(a, b, from, to),
        is_strictly_nearest(a, i),
    ensures
        is_strictly_nearest(b, to[i]),
{
    let w = to[i];
    assert(from[w] == i);
    assert(b[w] == a[i]);
    assert forall|j: int| 0 <= j < b.len() && j != w && (#[trigger] b[j]) is Some implies order_key(
        b[w]->0,
    ) < order_key(b[j]->0) by {
        assert(b[j] == a[from[j]]);
        assert(to[from[j]] == j);
        assert(from[j] != i);
        assert(a[from[j]] is Some);
    }
}

} // verus!
