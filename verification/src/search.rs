//! First-match search over a sequence, the rule by which every lookup table
//! of this crate is read.

use vstd::prelude::*;

verus! {

/// What `probe` finds at the first item at which it finds anything.
pub open spec fn first_hit<A, T>(items: Seq<A>, probe: spec_fn(A) -> Option<T>) -> Option<T>
    decreases items.len(),
{
    if items.len() == 0 {
        None
    } else {
        match first_hit(items.drop_last(), probe) {
            Some(t) => Some(t),
            None => probe(items.last()),
        }
    }
}

/// A new last item is consulted only if no earlier item was a hit.
pub proof fn lemma_first_hit_push<A, T>(items: Seq<A>, last: A, probe: spec_fn(A) -> Option<T>)
    ensures
        first_hit(items.push(last), probe) == match first_hit(items, probe) {
            Some(t) => Some(t),
            None => probe(last),
        },
{
    assert(items.push(last).drop_last() =~= items);
}

/// The step from a prefix to the next longer one.
pub proof fn lemma_first_hit_take<A, T>(items: Seq<A>, probe: spec_fn(A) -> Option<T>, i: int)
    requires
        0 <= i < items.len(),
    ensures
        first_hit(items.take(i + 1), probe) == match first_hit(items.take(i), probe) {
            Some(t) => Some(t),
            None => probe(items[i]),
        },
{
    assert(items.take(i + 1) =~= items.take(i).push(items[i]));
    lemma_first_hit_push(items.take(i), items[i], probe);
}

/// A hit in a prefix is the hit in the whole sequence.
pub proof fn lemma_first_hit_prefix<A, T>(items: Seq<A>, probe: spec_fn(A) -> Option<T>, i: int)
    requires
        0 <= i <= items.len(),
        first_hit(items.take(i), probe) is Some,
    ensures
        first_hit(items, probe) == first_hit(items.take(i), probe),
    decreases items.len() - i,
{
    if i < items.len() {
        lemma_first_hit_take(items, probe, i);
        lemma_first_hit_prefix(items, probe, i + 1);
    } else {
        assert(items.take(i) =~= items);
    }
}

/// The first item at which `probe` finds something decides the search.
pub proof fn lemma_first_hit_at<A, T>(items: Seq<A>, probe: spec_fn(A) -> Option<T>, i: int)
    requires
        0 <= i < items.len(),
        forall|j: int| 0 <= j < i ==> (#[trigger] probe(items[j])) is None,
        probe(items[i]) is Some,
    ensures
        first_hit(items, probe) == probe(items[i]),
{
    lemma_first_hit_none(items.take(i), probe);
    lemma_first_hit_take(items, probe, i);
    lemma_first_hit_prefix(items, probe, i + 1);
}

/// The search finds nothing exactly when `probe` finds nothing at any item.
pub proof fn lemma_first_hit_none<A, T>(items: Seq<A>, probe: spec_fn(A) -> Option<T>)
    ensures
        first_hit(items, probe) is None <==> forall|i: int|
            0 <= i < items.len() ==> (#[trigger] probe(items[i])) is None,
    decreases items.len(),
{
    if items.len() > 0 {
        lemma_first_hit_none(items.drop_last(), probe);
        if first_hit(items, probe) is None {
            assert forall|i: int| 0 <= i < items.len() implies (#[trigger] probe(
                items[i],
            )) is None by {
                if i < items.len() - 1 {
                    assert(items.drop_last()[i] == items[i]);
                }
            }
        }
    }
}

/// A hit comes from some item before which `probe` finds nothing.
pub proof fn lemma_first_hit_some<A, T>(items: Seq<A>, probe: spec_fn(A) -> Option<T>) -> (i: int)
    requires
        first_hit(items, probe) is Some,
    ensures
        0 <= i < items.len(),
        probe(items[i]) == first_hit(items, probe),
        forall|j: int| 0 <= j < i ==> (#[trigger] probe(items[j])) is None,
    decreases items.len(),
{
    if first_hit(items.drop_last(), probe) is Some {
        let i = lemma_first_hit_some(items.drop_last(), probe);
        assert forall|j: int| 0 <= j < i implies (#[trigger] probe(items[j])) is None by {
            assert(items.drop_last()[j] == items[j]);
        }
        i
    } else {
        lemma_first_hit_none(items.drop_last(), probe);
        assert forall|j: int| 0 <= j < items.len() - 1 implies (#[trigger] probe(
            items[j],
        )) is None by {
            assert(items.drop_last()[j] == items[j]);
        }
        items.len() - 1
    }
}

/// Two sequences in which `probe` finds the same, item by item, give the
/// same search.
pub proof fn lemma_first_hit_same<A, T>(a: Seq<A>, b: Seq<A>, probe: spec_fn(A) -> Option<T>)
    requires
        a.len() == b.len(),
        forall|i: int| 0 <= i < a.len() ==> probe(#[trigger] a[i]) == probe(b[i]),
    ensures
        first_hit(a, probe) == first_hit(b, probe),
    decreases a.len(),
{
    if a.len() > 0 {
        assert forall|i: int| 0 <= i < a.drop_last().len() implies probe(
            #[trigger] a.drop_last()[i],
        ) == probe(b.drop_last()[i]) by {}
        lemma_first_hit_same(a.drop_last(), b.drop_last(), probe);
    }
}

} // verus!
