//! Finding the first item of a sequence that has a property.

use vstd::prelude::*;

verus! {

/// The index of the first item that is `wanted`, or the length of the
/// sequence where there is none.
pub open spec fn first_where<T>(items: Seq<T>, wanted: spec_fn(T) -> bool) -> int
    decreases items.len(),
{
    if items.len() == 0 {
        0
    } else {
        let before = first_where(items.drop_last(), wanted);
        if before < items.len() - 1 {
            before
        } else if wanted(items.last()) {
            items.len() - 1
        } else {
            items.len() as int
        }
    }
}

/// What the index found is: in range, at an item that is wanted, with none
/// wanted before it.
pub proof fn lemma_first_where<T>(items: Seq<T>, wanted: spec_fn(T) -> bool)
    ensures
        0 <= first_where(items, wanted) <= items.len(),
        first_where(items, wanted) < items.len() ==> wanted(items[first_where(items, wanted)]),
        forall|j: int| 0 <= j < first_where(items, wanted) ==> !wanted(#[trigger] items[j]),
    decreases items.len(),
{
    if items.len() > 0 {
        let shorter = items.drop_last();
        lemma_first_where(shorter, wanted);
        let r = first_where(items, wanted);
        assert forall|j: int| 0 <= j < r implies !wanted(#[trigger] items[j]) by {
            if j < shorter.len() {
                assert(shorter[j] == items[j]);
            }
        }
        if r < shorter.len() {
            assert(shorter[r] == items[r]);
        }
    }
}

/// An index with those three properties is the index found.
pub proof fn lemma_first_where_is<T>(items: Seq<T>, wanted: spec_fn(T) -> bool, at: int)
    requires
        0 <= at <= items.len(),
        at < items.len() ==> wanted(items[at]),
        forall|j: int| 0 <= j < at ==> !wanted(#[trigger] items[j]),
    ensures
        first_where(items, wanted) == at,
{
    lemma_first_where(items, wanted);
    let r = first_where(items, wanted);
    if r < at {
        assert(!wanted(items[r]));
    }
}

/// The index found is at most the index of any item that is wanted.
pub proof fn lemma_first_where_at_most<T>(items: Seq<T>, wanted: spec_fn(T) -> bool, at: int)
    requires
        0 <= at < items.len(),
        wanted(items[at]),
    ensures
        0 <= first_where(items, wanted) <= at,
{
    lemma_first_where(items, wanted);
    if first_where(items, wanted) > at {
        assert(!wanted(items[at]));
    }
}

/// Where no item is wanted, the index found is the length.
pub proof fn lemma_first_where_none<T>(items: Seq<T>, wanted: spec_fn(T) -> bool)
    requires
        forall|j: int| 0 <= j < items.len() ==> !wanted(#[trigger] items[j]),
    ensures
        first_where(items, wanted) == items.len(),
{
    lemma_first_where_is(items, wanted, items.len() as int);
}

/// Two sequences of one length whose items are wanted at the same places
/// give the same index.
pub proof fn lemma_first_where_same<T>(first: Seq<T>, second: Seq<T>, wanted: spec_fn(T) -> bool)
    requires
        first.len() == second.len(),
        forall|j: int| 0 <= j < first.len() ==> wanted(#[trigger] first[j]) == wanted(second[j]),
    ensures
        first_where(first, wanted) == first_where(second, wanted),
{
    lemma_first_where(first, wanted);
    let r = first_where(first, wanted);
    assert forall|j: int| 0 <= j < r implies !wanted(#[trigger] second[j]) by {
        assert(wanted(first[j]) == wanted(second[j]));
    }
    if r < first.len() {
        assert(wanted(first[r]) == wanted(second[r]));
    }
    lemma_first_where_is(second, wanted, r);
}

/// The items that are to be kept, in their order.
pub open spec fn retained<T>(items: Seq<T>, keep: spec_fn(T) -> bool) -> Seq<T>
    decreases items.len(),
{
    if items.len() == 0 {
        Seq::empty()
    } else if keep(items.last()) {
        retained(items.drop_last(), keep).push(items.last())
    } else {
        retained(items.drop_last(), keep)
    }
}

/// What `project` makes of the items that are `wanted`, in their order.
pub open spec fn picked<T, U>(
    items: Seq<T>,
    wanted: spec_fn(T) -> bool,
    project: spec_fn(T) -> U,
) -> Seq<U>
    decreases items.len(),
{
    if items.len() == 0 {
        Seq::empty()
    } else if wanted(items.last()) {
        picked(items.drop_last(), wanted, project).push(project(items.last()))
    } else {
        picked(items.drop_last(), wanted, project)
    }
}

/// No more items are kept than there are, and each kept item is one of them
/// that is to be kept.
pub proof fn lemma_retained<T>(items: Seq<T>, keep: spec_fn(T) -> bool)
    ensures
        retained(items, keep).len() <= items.len(),
        forall|i: int|
            0 <= i < retained(items, keep).len() ==> keep(#[trigger] retained(items, keep)[i])
                && items.contains(retained(items, keep)[i]),
    decreases items.len(),
{
    if items.len() > 0 {
        let shorter = items.drop_last();
        lemma_retained(shorter, keep);
        let kept = retained(items, keep);
        assert forall|i: int| 0 <= i < kept.len() implies keep(#[trigger] kept[i])
            && items.contains(kept[i]) by {
            if i < retained(shorter, keep).len() {
                let item = retained(shorter, keep)[i];
                assert(kept[i] == item);
                assert(shorter.contains(item));
                let at = choose|at: int| 0 <= at < shorter.len() && shorter[at] == item;
                assert(items[at] == item);
            } else {
                assert(kept[i] == items[items.len() - 1]);
            }
        }
    }
}

/// What holds of every two items in their order holds of every two kept
/// items in theirs.
pub proof fn lemma_retained_pairs<T>(
    items: Seq<T>,
    keep: spec_fn(T) -> bool,
    related: spec_fn(T, T) -> bool,
)
    requires
        forall|i: int, j: int| 0 <= i < j < items.len() ==> related(items[i], items[j]),
    ensures
        forall|i: int, j: int|
            0 <= i < j < retained(items, keep).len() ==> related(
                retained(items, keep)[i],
                retained(items, keep)[j],
            ),
    decreases items.len(),
{
    if items.len() > 0 {
        let shorter = items.drop_last();
        assert forall|i: int, j: int| 0 <= i < j < shorter.len() implies related(
            shorter[i],
            shorter[j],
        ) by {
            assert(shorter[i] == items[i] && shorter[j] == items[j]);
        }
        lemma_retained_pairs(shorter, keep, related);
        lemma_retained(shorter, keep);
        let kept = retained(items, keep);
        let before = retained(shorter, keep);
        assert forall|i: int, j: int| 0 <= i < j < kept.len() implies related(kept[i], kept[j]) by {
            if j < before.len() {
                assert(kept[i] == before[i] && kept[j] == before[j]);
            } else {
                assert(kept[j] == items[items.len() - 1]);
                assert(kept[i] == before[i]);
                assert(shorter.contains(before[i]));
                let at = choose|at: int| 0 <= at < shorter.len() && shorter[at] == before[i];
                assert(items[at] == before[i]);
            }
        }
    }
}

} // verus!
