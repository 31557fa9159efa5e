//! Facts about filtered sequences that the store and the reconciliation
//! proofs share.

use vstd::prelude::*;

verus! {

/// Filtering one element more either appends that element or changes nothing.
pub proof fn lemma_filter_step<A>(s: Seq<A>, pred: spec_fn(A) -> bool, i: int)
    requires
        0 <= i < s.len(),
    ensures
        s.take(i + 1).filter(pred) == if pred(s[i]) {
            s.take(i).filter(pred).push(s[i])
        } else {
            s.take(i).filter(pred)
        },
{
    reveal(Seq::filter);
    assert(s.take(i + 1).drop_last() =~= s.take(i));
}

/// Filtering a sequence with one element pushed either pushes that element
/// onto the filtered sequence or changes nothing.
pub proof fn lemma_filter_push<A>(s: Seq<A>, pred: spec_fn(A) -> bool, x: A)
    ensures
        s.push(x).filter(pred) == if pred(x) {
            s.filter(pred).push(x)
        } else {
            s.filter(pred)
        },
{
    reveal(Seq::filter);
    assert(s.push(x).drop_last() =~= s);
}

/// Nothing passes a filter that no element satisfies.
pub proof fn lemma_filter_none<A>(s: Seq<A>, pred: spec_fn(A) -> bool)
    requires
        forall|i: int| 0 <= i < s.len() ==> !pred(#[trigger] s[i]),
    ensures
        s.filter(pred) == Seq::<A>::empty(),
    decreases s.len(),
{
    reveal(Seq::filter);
    if s.len() > 0 {
        lemma_filter_none(s.drop_last(), pred);
    }
}

/// Everything passes a filter that every element satisfies.
pub proof fn lemma_filter_all<A>(s: Seq<A>, pred: spec_fn(A) -> bool)
    requires
        forall|i: int| 0 <= i < s.len() ==> pred(#[trigger] s[i]),
    ensures
        s.filter(pred) == s,
    decreases s.len(),
{
    reveal(Seq::filter);
    if s.len() > 0 {
        lemma_filter_all(s.drop_last(), pred);
        assert(s.drop_last().push(s.last()) =~= s);
    }
}

/// Every element of a filtered sequence comes from the sequence and
/// satisfies the predicate.
pub proof fn lemma_filter_member<A>(s: Seq<A>, pred: spec_fn(A) -> bool, k: int)
    requires
        0 <= k < s.filter(pred).len(),
    ensures
        pred(s.filter(pred)[k]),
        exists|i: int| 0 <= i < s.len() && s[i] == s.filter(pred)[k],
    decreases s.len(),
{
    reveal(Seq::filter);
    if s.len() > 0 {
        let front = s.drop_last();
        if k < front.filter(pred).len() {
            lemma_filter_member(front, pred, k);
            let i = choose|i: int| 0 <= i < front.len() && front[i] == front.filter(pred)[k];
            assert(s[i] == s.filter(pred)[k]);
        } else {
            assert(s[s.len() - 1] == s.filter(pred)[k]);
        }
    }
}

/// Every element that satisfies the predicate occurs in the filtered
/// sequence.
pub proof fn lemma_filter_keeps<A>(s: Seq<A>, pred: spec_fn(A) -> bool, i: int)
    requires
        0 <= i < s.len(),
        pred(s[i]),
    ensures
        exists|k: int| 0 <= k < s.filter(pred).len() && s.filter(pred)[k] == s[i],
    decreases s.len(),
{
    reveal(Seq::filter);
    let front = s.drop_last();
    if i < s.len() - 1 {
        lemma_filter_keeps(front, pred, i);
        let k = choose|k: int| 0 <= k < front.filter(pred).len() && front.filter(pred)[k] == front[i];
        assert(s.filter(pred)[k] == s[i]);
    } else {
        let k = s.filter(pred).len() - 1;
        assert(s.filter(pred)[k] == s[i]);
    }
}

/// A filtered sequence keeps the order of its source: two elements of the
/// filtered sequence stand in the source in the same order.
pub proof fn lemma_filter_order<A>(s: Seq<A>, pred: spec_fn(A) -> bool, a: int, b: int)
    requires
        0 <= a < b < s.filter(pred).len(),
    ensures
        exists|i: int, j: int|
            0 <= i < j < s.len() && s[i] == s.filter(pred)[a] && s[j] == s.filter(pred)[b],
    decreases s.len(),
{
    reveal(Seq::filter);
    let front = s.drop_last();
    if b < front.filter(pred).len() {
        lemma_filter_order(front, pred, a, b);
        let (i, j) = choose|i: int, j: int|
            0 <= i < j < front.len() && front[i] == front.filter(pred)[a] && front[j]
                == front.filter(pred)[b];
        assert(s[i] == s.filter(pred)[a] && s[j] == s.filter(pred)[b]);
    } else {
        lemma_filter_member(front, pred, a);
        let i = choose|i: int| 0 <= i < front.len() && front[i] == front.filter(pred)[a];
        let j = s.len() - 1;
        assert(s[i] == s.filter(pred)[a] && s[j] == s.filter(pred)[b]);
    }
}

/// Filtering twice is filtering once when the second predicate implies the
/// first.
pub proof fn lemma_filter_narrower<A>(s: Seq<A>, wide: spec_fn(A) -> bool, narrow: spec_fn(A) -> bool)
    requires
        forall|i: int| 0 <= i < s.len() && narrow(#[trigger] s[i]) ==> wide(s[i]),
    ensures
        s.filter(wide).filter(narrow) == s.filter(narrow),
    decreases s.len(),
{
    reveal(Seq::filter);
    if s.len() > 0 {
        let front = s.drop_last();
        lemma_filter_narrower(front, wide, narrow);
        if wide(s.last()) {
            lemma_filter_push(front.filter(wide), narrow, s.last());
        }
    }
}

/// Two sequences that agree on which elements pass a filter, and on the
/// elements that pass, have the same filtered sequence.
pub proof fn lemma_filter_same<A>(a: Seq<A>, b: Seq<A>, pred: spec_fn(A) -> bool)
    requires
        a.len() == b.len(),
        forall|i: int| 0 <= i < a.len() ==> pred(#[trigger] a[i]) == pred(b[i]),
        forall|i: int| 0 <= i < a.len() && pred(a[i]) ==> #[trigger] a[i] == b[i],
    ensures
        a.filter(pred) == b.filter(pred),
    decreases a.len(),
{
    reveal(Seq::filter);
    if a.len() > 0 {
        let (a_front, b_front) = (a.drop_last(), b.drop_last());
        assert forall|i: int| 0 <= i < a_front.len() implies pred(#[trigger] a_front[i]) == pred(
            b_front[i],
        ) by {
            assert(a_front[i] == a[i] && b_front[i] == b[i]);
        }
        assert forall|i: int| 0 <= i < a_front.len() && pred(a_front[i]) implies #[trigger] a_front[i]
            == b_front[i] by {
            assert(a_front[i] == a[i] && b_front[i] == b[i]);
        }
        lemma_filter_same(a_front, b_front, pred);
        assert(pred(a.last()) == pred(b.last())) by {
            assert(a.last() == a[a.len() - 1] && b.last() == b[a.len() - 1]);
        }
        if pred(a.last()) {
            assert(a[a.len() - 1] == b[a.len() - 1]);
        }
    } else {
        assert(a =~= b);
    }
}

/// Filtering a sequence whose elements were each replaced through `f`,
/// where `f` changes nothing that the filter looks at, gives the filtered
/// sequence with each element replaced through `f`.
pub proof fn lemma_filter_map<A>(a: Seq<A>, b: Seq<A>, pred: spec_fn(A) -> bool, f: spec_fn(A) -> A)
    requires
        b.len() == a.len(),
        forall|i: int| 0 <= i < a.len() ==> #[trigger] b[i] == f(a[i]),
        forall|i: int| 0 <= i < a.len() ==> pred(f(#[trigger] a[i])) == pred(a[i]),
    ensures
        b.filter(pred) == a.filter(pred).map_values(f),
    decreases a.len(),
{
    reveal(Seq::filter);
    if a.len() == 0 {
        assert(b.filter(pred) =~= a.filter(pred).map_values(f));
    } else {
        lemma_filter_map(a.drop_last(), b.drop_last(), pred, f);
        assert(b.last() == f(a.last()));
        assert(b.filter(pred) =~= a.filter(pred).map_values(f));
    }
}

} // verus!
