//! The chronological order of the observations of a dataset.
use vstd::prelude::*;

verus! {

/// Observation `i` comes before observation `j`: it is earlier, or they have
/// the same time and `i` was listed first.
pub open spec fn precedes(times: Seq<i64>, i: int, j: int) -> bool {
    times[i] < times[j] || (times[i] == times[j] && i < j)
}

/// Whether `order` lists the index `i`.
pub open spec fn lists(order: Seq<usize>, i: int) -> bool {
    exists|k: int| 0 <= k < order.len() && order[k] == i
}

/// `order` puts the first `count` observations in chronological order: it
/// lists each of their indices once, an observation before every observation
/// that it precedes.
pub open spec fn orders_first(times: Seq<i64>, order: Seq<usize>, count: int) -> bool {
    &&& order.len() == count
    &&& forall|k: int| 0 <= k < order.len() ==> (#[trigger] order[k]) < count
    &&& forall|i: int| 0 <= i < count ==> #[trigger] lists(order, i)
    &&& forall|a: int, b: int|
        0 <= a < b < order.len() ==> precedes(times, #[trigger] order[a] as int, #[trigger] order[b] as int)
}

/// `order` is the chronological order of the observations dated `times`: a
/// permutation of their indices that is ascending in time and keeps
/// observations of the same time in the order in which they were listed.
pub open spec fn is_chronological(times: Seq<i64>, order: Seq<usize>) -> bool {
    orders_first(times, order, times.len() as int)
}

/// The chronological order is unique: two orders of the same observations
/// are the same order.
pub proof fn lemma_chronological_order_unique(times: Seq<i64>, first: Seq<usize>, second: Seq<usize>)
    requires
        is_chronological(times, first),
        is_chronological(times, second),
    ensures
        first == second,
{
    assert forall|k: int| 0 <= k < first.len() implies first[k] == second[k] by {
        lemma_same_rank(times, first, second, k);
    }
    assert(first =~= second);
}

/// The number of entries among the first `k` of `order` that come before
/// observation `i`.
spec fn earlier_among(times: Seq<i64>, order: Seq<usize>, i: int, k: int) -> int
    decreases k,
{
    if k <= 0 {
        0
    } else {
        earlier_among(times, order, i, k - 1) + if precedes(times, order[k - 1] as int, i) {
            1int
        } else {
            0int
        }
    }
}

/// In a chronological order the entry at position `p` is preceded by the
/// entries before it and by none after it.
proof fn lemma_earlier_among_sorted(times: Seq<i64>, order: Seq<usize>, p: int, k: int)
    requires
        is_chronological(times, order),
        0 <= p < order.len(),
        0 <= k <= order.len(),
    ensures
        earlier_among(times, order, order[p] as int, k) == if k <= p {
            k
        } else {
            p
        },
    decreases k,
{
    if k > 0 {
        lemma_earlier_among_sorted(times, order, p, k - 1);
        if k - 1 < p {
            assert(precedes(times, order[k - 1] as int, order[p] as int));
        } else if k - 1 > p {
            assert(precedes(times, order[p] as int, order[k - 1] as int));
        }
    }
}

/// The number of observations among the first `count` that come before
/// observation `i`.
spec fn earlier_indices(times: Seq<i64>, i: int, count: int) -> int
    decreases count,
{
    if count <= 0 {
        0
    } else {
        earlier_indices(times, i, count - 1) + if precedes(times, count - 1, i) {
            1int
        } else {
            0int
        }
    }
}

/// The position of an index in an order that holds it.
spec fn position_of(order: Seq<usize>, i: int) -> int {
    choose|k: int| 0 <= k < order.len() && order[k] == i
}

/// The number of entries among the first `k` of `order` that hold an index
/// below `bound` and come before observation `i`.
spec fn earlier_below(times: Seq<i64>, order: Seq<usize>, i: int, bound: int, k: int) -> int
    decreases k,
{
    if k <= 0 {
        0
    } else {
        earlier_below(times, order, i, bound, k - 1) + if order[k - 1] < bound && precedes(
            times,
            order[k - 1] as int,
            i,
        ) {
            1int
        } else {
            0int
        }
    }
}

/// No entry holds an index below zero.
proof fn lemma_earlier_below_zero(times: Seq<i64>, order: Seq<usize>, i: int, k: int)
    ensures
        earlier_below(times, order, i, 0, k) == 0,
    decreases k,
{
    if k > 0 {
        lemma_earlier_below_zero(times, order, i, k - 1);
    }
}

/// Every entry holds an index below the number of observations.
proof fn lemma_earlier_below_all(times: Seq<i64>, order: Seq<usize>, i: int, k: int)
    requires
        is_chronological(times, order),
        0 <= k <= order.len(),
    ensures
        earlier_below(times, order, i, order.len() as int, k) == earlier_among(times, order, i, k),
    decreases k,
{
    if k > 0 {
        lemma_earlier_below_all(times, order, i, k - 1);
    }
}

/// Raising the bound by one adds the entry that holds the index `bound`, once
/// the count has passed its position.
proof fn lemma_earlier_below_step(
    times: Seq<i64>,
    order: Seq<usize>,
    i: int,
    bound: int,
    k: int,
)
    requires
        is_chronological(times, order),
        0 <= bound < order.len(),
        0 <= k <= order.len(),
    ensures
        earlier_below(times, order, i, bound + 1, k) == earlier_below(times, order, i, bound, k)
            + if position_of(order, bound) < k && precedes(times, bound, i) {
            1int
        } else {
            0int
        },
    decreases k,
{
    let p = position_of(order, bound);
    assert(lists(order, bound));
    assert(0 <= p < order.len() && order[p] == bound);
    if k > 0 {
        lemma_earlier_below_step(times, order, i, bound, k - 1);
        if order[k - 1] == bound {
            if k - 1 < p {
                assert(precedes(times, order[k - 1] as int, order[p] as int));
            } else if k - 1 > p {
                assert(precedes(times, order[p] as int, order[k - 1] as int));
            }
            assert(k - 1 == p);
        }
    }
}

/// The entries of a chronological order that hold an index below `bound`
/// and come before observation `i` are as many as the observations below
/// `bound` that come before it: the order holds each index once.
proof fn lemma_earlier_below_counts(times: Seq<i64>, order: Seq<usize>, i: int, bound: int)
    requires
        is_chronological(times, order),
        0 <= bound <= order.len(),
    ensures
        earlier_below(times, order, i, bound, order.len() as int) == earlier_indices(
            times,
            i,
            bound,
        ),
    decreases bound,
{
    if bound == 0 {
        lemma_earlier_below_zero(times, order, i, order.len() as int);
    } else {
        lemma_earlier_below_counts(times, order, i, bound - 1);
        lemma_earlier_below_step(times, order, i, bound - 1, order.len() as int);
        let p = position_of(order, bound - 1);
        assert(lists(order, bound - 1));
        assert(0 <= p < order.len());
    }
}

/// The entry at position `k` of a chronological order is the observation
/// that exactly `k` observations precede, whatever the order.
proof fn lemma_same_rank(times: Seq<i64>, first: Seq<usize>, second: Seq<usize>, k: int)
    requires
        is_chronological(times, first),
        is_chronological(times, second),
        0 <= k < first.len(),
    ensures
        first[k] == second[k],
{
    let n = times.len() as int;
    let i = first[k] as int;
    assert(lists(second, i));
    let q = choose|q: int| 0 <= q < second.len() && second[q] == i;
    lemma_earlier_among_sorted(times, first, k, n);
    lemma_earlier_among_sorted(times, second, q, n);
    lemma_earlier_below_all(times, first, i, n);
    lemma_earlier_below_all(times, second, i, n);
    lemma_earlier_below_counts(times, first, i, n);
    lemma_earlier_below_counts(times, second, i, n);
    assert(k == q);
}

/// Computes the chronological order of the observations dated `times`.
pub fn chronological_order(times: &Vec<i64>) -> (order: Vec<usize>)
    ensures
        is_chronological(times@, order@),
{
    let n = times.len();
    let mut order: Vec<usize> = Vec::new();
    let mut i: usize = 0;
    while i < n
        invariant
            n == times.len(),
            i <= n,
            orders_first(times@, order@, i as int),
        decreases n - i,
    {
        let time = times[i];
        let mut j: usize = i;
        while j > 0 && times[order[j - 1]] > time
            invariant
                n == times.len(),
                i < n,
                j <= i,
                time == times[i as int],
                orders_first(times@, order@, i as int),
                forall|b: int| j <= b < i ==> times[(#[trigger] order[b]) as int] > time,
            decreases j,
        {
            j -= 1;
        }
        let ghost before = order@;
        order.insert(j, i);
        proof {
            before.insert_ensures(j as int, i);
            let after = order@;
            assert forall|x: int| 0 <= x < i + 1 implies #[trigger] lists(after, x) by {
                if x == i {
                    assert(after[j as int] == i);
                } else {
                    assert(lists(before, x));
                    let k = choose|k: int| 0 <= k < before.len() && before[k] == x;
                    if k < j {
                        assert(after[k] == before[k]);
                    } else {
                        assert(after[k + 1] == before[k]);
                    }
                }
            }
            assert forall|k: int| 0 <= k < after.len() implies (#[trigger] after[k]) < i + 1 by {
                if k < j {
                    assert(after[k] == before[k]);
                } else if k > j {
                    assert(after[k] == before[k - 1]);
                }
            }
            assert forall|a: int, b: int| 0 <= a < b < after.len() implies precedes(
                times@,
                #[trigger] after[a] as int,
                #[trigger] after[b] as int,
            ) by {
                if b < j {
                    assert(after[a] == before[a] && after[b] == before[b]);
                } else if b == j {
                    assert(after[a] == before[a]);
                    if a < j - 1 {
                        assert(precedes(times@, before[a] as int, before[j - 1] as int));
                    }
                } else if a < j {
                    assert(after[a] == before[a] && after[b] == before[b - 1]);
                } else if a == j {
                    assert(after[b] == before[b - 1]);
                } else {
                    assert(after[a] == before[a - 1] && after[b] == before[b - 1]);
                }
            }
        }
        i += 1;
    }
    order
}

} // verus!
