//! The first item of a sequence that meets a condition.

use vstd::prelude::*;

verus! {

/// The index of the first item of `items` that meets `wanted`, if any does.
pub open spec fn spec_first_index<T>(items: Seq<T>, wanted: spec_fn(T) -> bool) -> Option<int>
    decreases items.len(),
{
    if items.len() == 0 {
        None
    } else {
        match spec_first_index(items.drop_last(), wanted) {
            Some(i) => Some(i),
            None => if wanted(items.last()) {
                Some(items.len() - 1)
            } else {
                None
            },
        }
    }
}

/// What `spec_first_index` finds meets the condition and nothing before it
/// does; where it finds nothing, no item meets the condition.
pub proof fn lemma_first_index<T>(items: Seq<T>, wanted: spec_fn(T) -> bool)
    ensures
        match spec_first_index(items, wanted) {
            Some(i) => {
                &&& 0 <= i < items.len()
                &&& wanted(items[i])
                &&& forall|k: int| 0 <= k < i ==> !wanted(#[trigger] items[k])
            },
            None => forall|k: int| 0 <= k < items.len() ==> !wanted(#[trigger] items[k]),
        },
    decreases items.len(),
{
    if items.len() > 0 {
        lemma_first_index(items.drop_last(), wanted);
        assert forall|k: int| 0 <= k < items.len() - 1 implies items.drop_last()[k]
            == items[k] by {}
        match spec_first_index(items.drop_last(), wanted) {
            Some(i) => {
                assert forall|k: int| 0 <= k < i implies !wanted(#[trigger] items[k]) by {
                    assert(items.drop_last()[k] == items[k]);
                }
            },
            None => {
                assert forall|k: int| 0 <= k < items.len() - 1 implies !wanted(
                    #[trigger] items[k],
                ) by {
                    assert(items.drop_last()[k] == items[k]);
                }
            },
        }
    }
}

/// An item that meets the condition, with none before it that does, is what
/// `spec_first_index` finds.
pub proof fn lemma_first_index_is<T>(items: Seq<T>, wanted: spec_fn(T) -> bool, at: int)
    requires
        0 <= at < items.len(),
        wanted(items[at]),
        forall|k: int| 0 <= k < at ==> !wanted(#[trigger] items[k]),
    ensures
        spec_first_index(items, wanted) == Some(at),
{
    lemma_first_index(items, wanted);
}

/// Where no item meets the condition, `spec_first_index` finds nothing.
pub proof fn lemma_first_index_none<T>(items: Seq<T>, wanted: spec_fn(T) -> bool)
    requires
        forall|k: int| 0 <= k < items.len() ==> !wanted(#[trigger] items[k]),
    ensures
        spec_first_index(items, wanted) is None,
{
    lemma_first_index(items, wanted);
}

} // verus!
