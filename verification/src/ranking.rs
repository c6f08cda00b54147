//! Ranking: the order of things from the greatest key to the least, equal keys staying in the
//! order in which they came.

use vstd::prelude::*;

verus! {

/// A place put into a ranking: before all places with a smaller key, after all others.
pub open spec fn ranked_in(order: Seq<int>, keys: Seq<int>, x: int) -> Seq<int>
    decreases order.len(),
{
    if order.len() == 0 {
        seq![x]
    } else if keys[order.last()] >= keys[x] {
        order.push(x)
    } else {
        ranked_in(order.drop_last(), keys, x).push(order.last())
    }
}

/// The places of the first `n` keys, from the greatest key to the least.
pub open spec fn ranking_of(keys: Seq<int>, n: nat) -> Seq<int>
    decreases n,
{
    if n == 0 {
        Seq::empty()
    } else {
        ranked_in(ranking_of(keys, (n - 1) as nat), keys, n - 1)
    }
}

/// The places of the keys, from the greatest key to the least.
pub open spec fn ranking(keys: Seq<int>) -> Seq<int> {
    ranking_of(keys, keys.len())
}

/// One place comes before another: its key is greater, or the keys are equal and it came first.
pub open spec fn precedes(keys: Seq<int>, i: int, j: int) -> bool {
    keys[i] > keys[j] || (keys[i] == keys[j] && i < j)
}

proof fn lemma_ranked_in(order: Seq<int>, keys: Seq<int>, x: int)
    requires
        0 <= x,
        forall|a: int| 0 <= a < order.len() ==> 0 <= #[trigger] order[a] < x,
        forall|a: int, b: int|
            0 <= a < b < order.len() ==> precedes(keys, #[trigger] order[a], #[trigger] order[b]),
    ensures
        ranked_in(order, keys, x).len() == order.len() + 1,
        forall|a: int|
            0 <= a < ranked_in(order, keys, x).len() ==> 0 <= #[trigger] ranked_in(
                order,
                keys,
                x,
            )[a] <= x,
        forall|a: int, b: int|
            0 <= a < b < ranked_in(order, keys, x).len() ==> precedes(
                keys,
                #[trigger] ranked_in(order, keys, x)[a],
                #[trigger] ranked_in(order, keys, x)[b],
            ),
        forall|i: int|
            order.contains(i) || i == x ==> #[trigger] ranked_in(order, keys, x).contains(i),
        forall|a: int|
            0 <= a < ranked_in(order, keys, x).len() ==> (#[trigger] ranked_in(order, keys, x)[a])
                == x || order.contains(ranked_in(order, keys, x)[a]),
    decreases order.len(),
{
    let r = ranked_in(order, keys, x);
    if order.len() == 0 {
        assert(r[0] == x);
    } else if keys[order.last()] >= keys[x] {
        assert forall|a: int, b: int| 0 <= a < b < r.len() implies precedes(
            keys,
            #[trigger] r[a],
            #[trigger] r[b],
        ) by {
            if b == order.len() {
                if a < order.len() - 1 {
                    assert(precedes(keys, order[a], order[order.len() - 1]));
                }
            }
        }
        assert(r[order.len() as int] == x);
        assert forall|i: int| order.contains(i) || i == x implies #[trigger] r.contains(i) by {
            if order.contains(i) {
                let a = choose|a: int| 0 <= a < order.len() && order[a] == i;
                assert(r[a] == i);
            }
        }
    } else {
        let o = order.drop_last();
        assert forall|a: int, b: int| 0 <= a < b < o.len() implies precedes(
            keys,
            #[trigger] o[a],
            #[trigger] o[b],
        ) by {
            assert(precedes(keys, order[a], order[b]));
        }
        lemma_ranked_in(o, keys, x);
        let q = ranked_in(o, keys, x);
        assert forall|a: int, b: int| 0 <= a < b < r.len() implies precedes(
            keys,
            #[trigger] r[a],
            #[trigger] r[b],
        ) by {
            if b == q.len() {
                assert(r[a] == q[a]);
                if q[a] != x {
                    assert(o.contains(q[a]));
                    let k = choose|k: int| 0 <= k < o.len() && o[k] == q[a];
                    assert(precedes(keys, order[k], order[order.len() - 1]));
                }
            }
        }
        assert forall|i: int| order.contains(i) || i == x implies #[trigger] r.contains(i) by {
            if i == x || o.contains(i) {
                assert(q.contains(i));
                let a = choose|a: int| 0 <= a < q.len() && q[a] == i;
                assert(r[a] == i);
            } else {
                let a = choose|a: int| 0 <= a < order.len() && order[a] == i;
                assert(a == order.len() - 1) by {
                    if a < order.len() - 1 {
                        assert(o[a] == i);
                    }
                }
                assert(r[q.len() as int] == i);
            }
        }
        assert forall|a: int| 0 <= a < r.len() implies (#[trigger] r[a]) == x || order.contains(
            r[a],
        ) by {
            if a < q.len() {
                assert(r[a] == q[a]);
                if q[a] != x {
                    let k = choose|k: int| 0 <= k < o.len() && o[k] == q[a];
                    assert(order[k] == q[a]);
                }
            } else {
                assert(r[a] == order[order.len() - 1]);
            }
        }
    }
}

/// A ranking names every place exactly once, from the greatest key to the least, and leaves equal
/// keys in the order in which they came.
pub proof fn ranking_is_stable(keys: Seq<int>, n: nat)
    requires
        n <= keys.len(),
    ensures
        ranking_of(keys, n).len() == n,
        forall|a: int| 0 <= a < n ==> 0 <= #[trigger] ranking_of(keys, n)[a] < n,
        forall|a: int, b: int|
            0 <= a < b < n ==> precedes(
                keys,
                #[trigger] ranking_of(keys, n)[a],
                #[trigger] ranking_of(keys, n)[b],
            ),
        forall|i: int| 0 <= i < n ==> #[trigger] ranking_of(keys, n).contains(i),
    decreases n,
{
    if n > 0 {
        let m = (n - 1) as nat;
        ranking_is_stable(keys, m);
        lemma_ranked_in(ranking_of(keys, m), keys, n - 1);
        assert forall|i: int| 0 <= i < n implies #[trigger] ranking_of(keys, n).contains(i) by {
            if i < m {
                assert(ranking_of(keys, m).contains(i));
            }
        }
    }
}

/// A list of numbers as mathematical integers.
pub open spec fn ints(v: Seq<i64>) -> Seq<int> {
    Seq::new(v.len(), |i: int| v[i] as int)
}

/// A list of places as mathematical integers.
pub open spec fn places(v: Seq<usize>) -> Seq<int> {
    Seq::new(v.len(), |i: int| v[i] as int)
}

/// The places of the keys, from the greatest key to the least.
pub fn rank(keys: &Vec<i64>) -> (r: Vec<usize>)
    ensures
        places(r@) == ranking(ints(keys@)),
        r@.len() == keys@.len(),
        forall|k: int| 0 <= k < r@.len() ==> (#[trigger] r@[k]) < keys@.len(),
{
    let ghost ks = ints(keys@);
    let mut out: Vec<usize> = Vec::new();
    let mut i: usize = 0;
    assert(places(out@) =~= ranking_of(ks, 0));
    while i < keys.len()
        invariant
            i <= keys@.len(),
            ks == ints(keys@),
            out@.len() == i,
            places(out@) == ranking_of(ks, i as nat),
            forall|k: int| 0 <= k < out@.len() ==> (#[trigger] out@[k]) < i,
        decreases keys@.len() - i,
    {
        let ghost order = places(out@);
        let mut at: usize = out.len();
        assert(order.take(at as int) =~= order);
        assert(ranked_in(order, ks, i as int) =~= ranked_in(order.take(at as int), ks, i as int)
            + order.skip(at as int));
        while at > 0 && keys[out[at - 1]] < keys[i]
            invariant
                at <= out@.len(),
                i < keys@.len(),
                ks == ints(keys@),
                order == places(out@),
                forall|k: int| 0 <= k < out@.len() ==> (#[trigger] out@[k]) < i,
                ranked_in(order, ks, i as int) == ranked_in(order.take(at as int), ks, i as int)
                    + order.skip(at as int),
            decreases at,
        {
            let ghost head = order.take(at as int);
            assert(head.last() == order[at - 1]);
            assert(head.drop_last() =~= order.take(at - 1));
            assert(ranked_in(head, ks, i as int) == ranked_in(order.take(at - 1), ks, i as int).push(
                order[at - 1],
            ));
            assert(ranked_in(order.take(at - 1), ks, i as int).push(order[at - 1]) + order.skip(
                at as int,
            ) =~= ranked_in(order.take(at - 1), ks, i as int) + order.skip(at - 1));
            at = at - 1;
        }
        proof {
            let head = order.take(at as int);
            if at > 0 {
                assert(head.last() == order[at - 1]);
                assert(ranked_in(head, ks, i as int) =~= head.push(i as int));
            } else {
                assert(ranked_in(head, ks, i as int) =~= head.push(i as int));
            }
        }
        let ghost before = out@;
        out.insert(at, i);
        proof {
            assert(places(out@) =~= order.take(at as int).push(i as int) + order.skip(at as int));
            assert forall|k: int| 0 <= k < out@.len() implies (#[trigger] out@[k]) < i + 1 by {
                if k < at {
                    assert(out@[k] == before[k]);
                } else if k > at {
                    assert(out@[k] == before[k - 1]);
                }
            }
        }
        i = i + 1;
    }
    out
}

} // verus!
