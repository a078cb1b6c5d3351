//! What it is for one sequence to be a subsequence of another, and what a
//! filter keeps of a sequence.

use vstd::prelude::*;

verus! {

/// `at` names, for each item of `part`, a place in `whole` that holds the same
/// item, and the places rise with the items.
pub open spec fn embeds<T>(part: Seq<T>, whole: Seq<T>, at: Seq<int>) -> bool {
    &&& at.len() == part.len()
    &&& forall|i: int|
        0 <= i < part.len() ==> 0 <= #[trigger] at[i] < whole.len() && whole[at[i]] == part[i]
    &&& forall|i: int, j: int| 0 <= i < j < part.len() ==> #[trigger] at[i] < #[trigger] at[j]
}

/// `part` is what is left of `whole` when some of its items are struck out:
/// the same items in the same order, none more often than `whole` has it.
pub open spec fn is_subsequence<T>(part: Seq<T>, whole: Seq<T>) -> bool {
    exists|at: Seq<int>| embeds(part, whole, at)
}

/// Where every item that passes `narrow` passes `wide`, what `narrow` keeps of
/// a sequence is a subsequence of what `wide` keeps of it.
pub proof fn lemma_filters_nest<T>(
    items: Seq<T>,
    narrow: spec_fn(T) -> bool,
    wide: spec_fn(T) -> bool,
)
    requires
        forall|i: int| 0 <= i < items.len() && narrow(items[i]) ==> wide(items[i]),
    ensures
        is_subsequence(items.filter(narrow), items.filter(wide)),
    decreases items.len(),
{
    if items.len() == 0 {
        reveal(Seq::filter);
        assert(embeds(items.filter(narrow), items.filter(wide), Seq::<int>::empty()));
    } else {
        let front = items.drop_last();
        let last = items.last();
        assert(items == front.push(last));
        assert forall|i: int| 0 <= i < front.len() && narrow(front[i]) implies wide(front[i]) by {
            assert(front[i] == items[i]);
        }
        lemma_filters_nest(front, narrow, wide);
        front.lemma_filter_push(last, narrow);
        front.lemma_filter_push(last, wide);
        let at = choose|at: Seq<int>| embeds(front.filter(narrow), front.filter(wide), at);
        if narrow(last) {
            assert(embeds(
                items.filter(narrow),
                items.filter(wide),
                at.push(front.filter(wide).len() as int),
            ));
        } else {
            assert(embeds(items.filter(narrow), items.filter(wide), at));
        }
    }
}

/// A test that every item passes keeps the whole sequence.
pub proof fn lemma_filter_keeps_all<T>(items: Seq<T>, test: spec_fn(T) -> bool)
    requires
        forall|i: int| 0 <= i < items.len() ==> test(items[i]),
    ensures
        items.filter(test) == items,
    decreases items.len(),
{
    if items.len() == 0 {
        reveal(Seq::filter);
    } else {
        let front = items.drop_last();
        assert(items == front.push(items.last()));
        assert forall|i: int| 0 <= i < front.len() implies test(front[i]) by {
            assert(front[i] == items[i]);
        }
        lemma_filter_keeps_all(front, test);
        front.lemma_filter_push(items.last(), test);
    }
}

/// A test that no item passes keeps nothing.
pub proof fn lemma_filter_keeps_none<T>(items: Seq<T>, test: spec_fn(T) -> bool)
    requires
        forall|i: int| 0 <= i < items.len() ==> !test(items[i]),
    ensures
        items.filter(test) == Seq::<T>::empty(),
    decreases items.len(),
{
    if items.len() == 0 {
        reveal(Seq::filter);
    } else {
        let front = items.drop_last();
        assert(items == front.push(items.last()));
        assert forall|i: int| 0 <= i < front.len() implies !test(front[i]) by {
            assert(front[i] == items[i]);
        }
        lemma_filter_keeps_none(front, test);
        front.lemma_filter_push(items.last(), test);
    }
}

} // verus!
