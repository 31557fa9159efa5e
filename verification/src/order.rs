//! Stable ordering of records by an integer key.
//!
//! The store hands rows back in no particular order; cards are presented by
//! creation time and the slots of a card by row identifier. Both orders are
//! computed here, as a permutation of positions, so that one algorithm and one
//! set of lemmas serves both.

use vstd::prelude::*;

verus! {

/// Position `a` comes before position `b`: its key is smaller, or the keys
/// are equal and `a` was fetched first.
pub open spec fn precedes(keys: Seq<u64>, a: int, b: int) -> bool {
    keys[a] < keys[b] || (keys[a] == keys[b] && a < b)
}

/// Where a new key joins positions already in order: behind the last
/// position whose key is not greater.
pub open spec fn insertion_point(keys: Seq<u64>, ordered: Seq<int>, key: u64) -> int
    decreases ordered.len(),
{
    if ordered.len() == 0 {
        0
    } else if keys[ordered.last()] <= key {
        ordered.len() as int
    } else {
        insertion_point(keys, ordered.drop_last(), key)
    }
}

/// The positions `0..keys.len()` arranged by ascending key, positions with
/// equal keys in ascending order.
pub open spec fn stable_order(keys: Seq<u64>) -> Seq<int>
    decreases keys.len(),
{
    if keys.len() == 0 {
        Seq::empty()
    } else {
        let last = keys.len() - 1;
        let ordered = stable_order(keys.take(last));
        ordered.insert(insertion_point(keys, ordered, keys[last]), last)
    }
}

/// `order` lists each position of `keys` in range, ascending by
/// `(key, position)`.
pub open spec fn is_stable_order(keys: Seq<u64>, order: Seq<int>) -> bool {
    &&& order.len() == keys.len()
    &&& forall|i: int| 0 <= i < order.len() ==> 0 <= #[trigger] order[i] < keys.len()
    &&& forall|i: int, j: int|
        0 <= i < j < order.len() ==> precedes(keys, #[trigger] order[i], #[trigger] order[j])
}

/// The items rearranged so that position `i` holds the item that `order`
/// names at `i`.
pub open spec fn arranged<T>(items: Seq<T>, order: Seq<int>) -> Seq<T> {
    Seq::new(order.len(), |i: int| items[order[i]])
}

/// The positions `0..n` in their natural order.
pub open spec fn identity_order(n: nat) -> Seq<int> {
    Seq::new(n, |i: int| i)
}

/// Mathematical value of a vector of positions.
pub open spec fn positions(p: Seq<usize>) -> Seq<int> {
    Seq::new(p.len(), |i: int| p[i] as int)
}

/// Everything in front of the insertion point has a key that is not greater,
/// everything from it on has a greater key.
pub proof fn lemma_insertion_point(keys: Seq<u64>, ordered: Seq<int>, key: u64)
    requires
        forall|i: int| 0 <= i < ordered.len() ==> 0 <= #[trigger] ordered[i] < keys.len(),
        forall|i: int, j: int|
            0 <= i < j < ordered.len() ==> keys[#[trigger] ordered[i]] <= keys[#[trigger] ordered[j]],
    ensures
        0 <= insertion_point(keys, ordered, key) <= ordered.len(),
        forall|i: int|
            0 <= i < insertion_point(keys, ordered, key) ==> keys[#[trigger] ordered[i]] <= key,
        forall|i: int|
            insertion_point(keys, ordered, key) <= i < ordered.len() ==> keys[#[trigger] ordered[i]]
                > key,
    decreases ordered.len(),
{
    if ordered.len() > 0 && keys[ordered.last()] > key {
        let shorter = ordered.drop_last();
        lemma_insertion_point(keys, shorter, key);
        assert forall|i: int|
            0 <= i < insertion_point(keys, ordered, key) implies keys[#[trigger] ordered[i]]
            <= key by {
            assert(ordered[i] == shorter[i]);
        }
        assert forall|i: int|
            insertion_point(keys, ordered, key) <= i < ordered.len() implies keys[#[trigger] ordered[i]]
            > key by {
            if i < shorter.len() {
                assert(ordered[i] == shorter[i]);
            }
        }
    }
}

/// The stable order is a stable order: every position in range, ascending by
/// key, positions with equal keys in ascending order.
pub proof fn lemma_stable_order_sorted(keys: Seq<u64>)
    ensures
        is_stable_order(keys, stable_order(keys)),
    decreases keys.len(),
{
    if keys.len() > 0 {
        let last = keys.len() - 1;
        let front = keys.take(last);
        let ordered = stable_order(front);
        lemma_stable_order_sorted(front);
        assert forall|i: int| 0 <= i < ordered.len() implies 0 <= #[trigger] ordered[i]
            < keys.len() by {}
        assert forall|i: int, j: int| 0 <= i < j < ordered.len() implies keys[#[trigger] ordered[i]]
            <= keys[#[trigger] ordered[j]] by {
            assert(precedes(front, ordered[i], ordered[j]));
        }
        lemma_insertion_point(keys, ordered, keys[last]);
        let at = insertion_point(keys, ordered, keys[last]);
        let order = stable_order(keys);
        assert(order == ordered.insert(at, last));
        assert forall|i: int, j: int| 0 <= i < j < order.len() implies precedes(
            keys,
            #[trigger] order[i],
            #[trigger] order[j],
        ) by {
            if j < at {
                assert(order[i] == ordered[i] && order[j] == ordered[j]);
                assert(precedes(front, ordered[i], ordered[j]));
            } else if j == at {
                assert(order[i] == ordered[i]);
            } else if i < at {
                assert(order[i] == ordered[i] && order[j] == ordered[j - 1]);
                assert(precedes(front, ordered[i], ordered[j - 1]));
            } else if i == at {
                assert(order[j] == ordered[j - 1]);
            } else {
                assert(order[i] == ordered[i - 1] && order[j] == ordered[j - 1]);
                assert(precedes(front, ordered[i - 1], ordered[j - 1]));
            }
        }
    }
}

/// Every position occurs in the stable order.
pub proof fn lemma_stable_order_covers(keys: Seq<u64>, a: int)
    requires
        0 <= a < keys.len(),
    ensures
        stable_order(keys).contains(a),
    decreases keys.len(),
{
    let last = keys.len() - 1;
    let front = keys.take(last);
    let ordered = stable_order(front);
    lemma_stable_order_sorted(front);
    assert forall|i: int, j: int| 0 <= i < j < ordered.len() implies keys[#[trigger] ordered[i]]
        <= keys[#[trigger] ordered[j]] by {
        assert(precedes(front, ordered[i], ordered[j]));
    }
    lemma_insertion_point(keys, ordered, keys[last]);
    let at = insertion_point(keys, ordered, keys[last]);
    let order = ordered.insert(at, last);
    if a == last {
        assert(order[at] == a);
    } else {
        lemma_stable_order_covers(front, a);
        let i = choose|i: int| 0 <= i < ordered.len() && ordered[i] == a;
        if i < at {
            assert(order[i] == a);
        } else {
            assert(order[i + 1] == a);
        }
    }
}

/// Keys that already ascend keep their order.
pub proof fn lemma_stable_order_of_ascending(keys: Seq<u64>)
    requires
        forall|i: int, j: int| 0 <= i < j < keys.len() ==> keys[i] <= keys[j],
    ensures
        stable_order(keys) == identity_order(keys.len()),
    decreases keys.len(),
{
    if keys.len() > 0 {
        let last = keys.len() - 1;
        let front = keys.take(last);
        lemma_stable_order_of_ascending(front);
        let ordered = stable_order(front);
        if last > 0 {
            assert(ordered.last() == last - 1);
            assert(keys[last - 1] <= keys[last]);
        }
        assert(insertion_point(keys, ordered, keys[last]) == last);
        assert(ordered.insert(last, last) =~= identity_order(keys.len()));
    } else {
        assert(stable_order(keys) =~= identity_order(0));
    }
}

/// Computes the stable order of `keys`.
pub fn order_by_key(keys: &Vec<u64>) -> (order: Vec<usize>)
    ensures
        positions(order@) == stable_order(keys@),
        order.len() == keys.len(),
        forall|i: int| 0 <= i < order.len() ==> #[trigger] order[i] < keys.len(),
{
    let mut order: Vec<usize> = Vec::new();
    let mut n: usize = 0;
    assert(positions(order@) =~= stable_order(keys@.take(0)));
    while n < keys.len()
        invariant
            n <= keys.len(),
            positions(order@) == stable_order(keys@.take(n as int)),
        decreases keys.len() - n,
    {
        let key = keys[n];
        let ghost ordered = positions(order@);
        proof {
            lemma_stable_order_sorted(keys@.take(n as int));
        }
        let mut at: usize = order.len();
        assert(ordered.take(at as int) =~= ordered);
        while at > 0 && keys[order[at - 1]] > key
            invariant
                at <= order.len(),
                order.len() == n,
                n < keys.len(),
                ordered == positions(order@),
                is_stable_order(keys@.take(n as int), ordered),
                insertion_point(keys@, ordered, key) == insertion_point(
                    keys@,
                    ordered.take(at as int),
                    key,
                ),
            decreases at,
        {
            assert(ordered.take(at as int).drop_last() =~= ordered.take(at - 1));
            at -= 1;
        }
        proof {
            assert(ordered.take(ordered.len() as int) =~= ordered);
            assert(insertion_point(keys@, ordered, key) == at);
            assert(keys@.take(n + 1).take(n as int) =~= keys@.take(n as int));
            let front = keys@.take(n + 1);
            assert(insertion_point(front, ordered, key) == at) by {
                lemma_insertion_point_agrees(keys@, front, ordered, key);
            }
        }
        order.insert(at, n);
        assert(positions(order@) =~= ordered.insert(at as int, n as int));
        n += 1;
    }
    assert(keys@.take(n as int) =~= keys@);
    proof {
        lemma_stable_order_sorted(keys@);
        assert forall|i: int| 0 <= i < order.len() implies #[trigger] order[i] < keys.len() by {
            assert(positions(order@)[i] == order[i]);
        }
    }
    order
}

/// The insertion point depends only on the keys at the ordered positions.
pub proof fn lemma_insertion_point_agrees(
    keys: Seq<u64>,
    other: Seq<u64>,
    ordered: Seq<int>,
    key: u64,
)
    requires
        forall|i: int|
            0 <= i < ordered.len() ==> 0 <= #[trigger] ordered[i] < keys.len() && ordered[i]
                < other.len() && keys[ordered[i]] == other[ordered[i]],
    ensures
        insertion_point(keys, ordered, key) == insertion_point(other, ordered, key),
    decreases ordered.len(),
{
    if ordered.len() > 0 {
        assert(ordered.last() == ordered[ordered.len() - 1]);
        if keys[ordered.last()] > key {
            let shorter = ordered.drop_last();
            assert forall|i: int| 0 <= i < shorter.len() implies 0 <= #[trigger] shorter[i]
                < keys.len() && shorter[i] < other.len() && keys[shorter[i]] == other[shorter[i]] by {
                assert(shorter[i] == ordered[i]);
            }
            lemma_insertion_point_agrees(keys, other, shorter, key);
        }
    }
}

/// One more key at the end joins the order of the keys before it at its
/// insertion point.
pub proof fn lemma_stable_order_push(keys: Seq<u64>, key: u64)
    ensures
        stable_order(keys.push(key)) == stable_order(keys).insert(
            insertion_point(keys, stable_order(keys), key),
            keys.len() as int,
        ),
{
    let longer = keys.push(key);
    assert(longer.take(keys.len() as int) =~= keys);
    lemma_stable_order_sorted(keys);
    lemma_insertion_point_agrees(longer, keys, stable_order(keys), key);
}

} // verus!
