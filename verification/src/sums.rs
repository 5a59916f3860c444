//! Sums over sequences, and how they change when an item comes or goes.

use vstd::prelude::*;

verus! {

/// The sum of `weight` over the items of `items`.
pub open spec fn sum_of<T>(items: Seq<T>, weight: spec_fn(T) -> nat) -> nat
    decreases items.len(),
{
    if items.len() == 0 {
        0
    } else {
        sum_of(items.drop_last(), weight) + weight(items.last())
    }
}

/// An item put at the end adds its weight.
pub proof fn lemma_sum_push<T>(items: Seq<T>, item: T, weight: spec_fn(T) -> nat)
    ensures
        sum_of(items.push(item), weight) == sum_of(items, weight) + weight(item),
{
    assert(items.push(item).drop_last() =~= items);
}

/// An item put anywhere adds its weight.
pub proof fn lemma_sum_insert<T>(items: Seq<T>, at: int, item: T, weight: spec_fn(T) -> nat)
    requires
        0 <= at <= items.len(),
    ensures
        sum_of(items.insert(at, item), weight) == sum_of(items, weight) + weight(item),
    decreases items.len(),
{
    if at == items.len() {
        assert(items.insert(at, item) =~= items.push(item));
        lemma_sum_push(items, item, weight);
    } else {
        let longer = items.insert(at, item);
        assert(longer.drop_last() =~= items.drop_last().insert(at, item));
        assert(longer.last() == items.last());
        lemma_sum_insert(items.drop_last(), at, item, weight);
    }
}

/// An item taken out takes its weight with it.
pub proof fn lemma_sum_remove<T>(items: Seq<T>, at: int, weight: spec_fn(T) -> nat)
    requires
        0 <= at < items.len(),
    ensures
        sum_of(items.remove(at), weight) + weight(items[at]) == sum_of(items, weight),
    decreases items.len(),
{
    if at == items.len() - 1 {
        assert(items.remove(at) =~= items.drop_last());
    } else {
        let shorter = items.remove(at);
        assert(shorter.drop_last() =~= items.drop_last().remove(at));
        assert(shorter.last() == items.last());
        lemma_sum_remove(items.drop_last(), at, weight);
    }
}

/// Where no item weighs more than `bound`, the sum is at most `bound` times
/// the number of items.
pub proof fn lemma_sum_bound<T>(items: Seq<T>, weight: spec_fn(T) -> nat, bound: nat)
    requires
        forall|i: int| 0 <= i < items.len() ==> weight(#[trigger] items[i]) <= bound,
    ensures
        sum_of(items, weight) <= items.len() * bound,
    decreases items.len(),
{
    if items.len() > 0 {
        let shorter = items.drop_last();
        assert forall|i: int| 0 <= i < shorter.len() implies weight(#[trigger] shorter[i])
            <= bound by {
            assert(shorter[i] == items[i]);
        }
        lemma_sum_bound(shorter, weight, bound);
        assert(weight(items[items.len() - 1]) <= bound);
        assert(items.len() * bound == shorter.len() * bound + bound) by (nonlinear_arith)
            requires
                items.len() == shorter.len() + 1,
        ;
    }
}

/// Where every item weighs nothing the sum is zero, and the other way round.
pub proof fn lemma_sum_zero<T>(items: Seq<T>, weight: spec_fn(T) -> nat)
    ensures
        sum_of(items, weight) == 0 <==> forall|i: int|
            0 <= i < items.len() ==> weight(#[trigger] items[i]) == 0,
    decreases items.len(),
{
    if items.len() > 0 {
        let shorter = items.drop_last();
        lemma_sum_zero(shorter, weight);
        if sum_of(items, weight) == 0 {
            assert forall|i: int| 0 <= i < items.len() implies weight(#[trigger] items[i])
                == 0 by {
                if i < shorter.len() {
                    assert(shorter[i] == items[i]);
                }
            }
        }
        if forall|i: int| 0 <= i < items.len() ==> weight(#[trigger] items[i]) == 0 {
            assert forall|i: int| 0 <= i < shorter.len() implies weight(#[trigger] shorter[i])
                == 0 by {
                assert(shorter[i] == items[i]);
            }
            assert(weight(items[items.len() - 1]) == 0);
        }
    }
}

} // verus!
