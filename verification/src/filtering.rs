//! Facts about filtered sequences: what a filter keeps, in what order, and
//! how two filters relate.

use vstd::prelude::*;

verus! {

/// `idx` lists, in rising order, the positions of `all` at which the items of
/// `sub` stand.
pub open spec fn picks<A>(idx: Seq<int>, sub: Seq<A>, all: Seq<A>) -> bool {
    &&& idx.len() == sub.len()
    &&& forall|i: int|
        0 <= i < idx.len() ==> 0 <= #[trigger] idx[i] < all.len() && sub[i] == all[idx[i]]
    &&& forall|i: int, j: int| 0 <= i < j < idx.len() ==> idx[i] < idx[j]
}

/// `sub` is `all` with some items left out: nothing added, nothing moved,
/// nothing repeated that `all` does not repeat.
pub open spec fn is_subsequence<A>(sub: Seq<A>, all: Seq<A>) -> bool {
    exists|idx: Seq<int>| picks(idx, sub, all)
}

/// Filtering a sequence keeps or drops its first item and filters the rest.
pub proof fn lemma_filter_first<A>(first: A, rest: Seq<A>, keep: spec_fn(A) -> bool)
    ensures
        (seq![first] + rest).filter(keep) == if keep(first) {
            seq![first] + rest.filter(keep)
        } else {
            rest.filter(keep)
        },
{
    Seq::filter_distributes_over_add(seq![first], rest, keep);
    reveal_with_fuel(Seq::filter, 2);
    assert(seq![first].drop_last() =~= Seq::<A>::empty());
    assert(seq![first].filter(keep) =~= if keep(first) {
        seq![first]
    } else {
        Seq::<A>::empty()
    });
    assert(Seq::<A>::empty() + rest.filter(keep) =~= rest.filter(keep));
}

/// What a filter keeps is a subsequence of what it was given.
pub proof fn lemma_filter_is_subsequence<A>(all: Seq<A>, keep: spec_fn(A) -> bool)
    ensures
        is_subsequence(all.filter(keep), all),
    decreases all.len(),
{
    reveal_with_fuel(Seq::filter, 2);
    if all.len() == 0 {
        assert(picks(Seq::<int>::empty(), all.filter(keep), all));
    } else {
        let init = all.drop_last();
        lemma_filter_is_subsequence(init, keep);
        let idx = choose|idx: Seq<int>| picks(idx, init.filter(keep), init);
        if keep(all.last()) {
            assert(picks(idx.push(all.len() - 1), all.filter(keep), all));
        } else {
            assert(picks(idx, all.filter(keep), all));
        }
    }
}

/// A filter that every item passes changes nothing.
pub proof fn lemma_filter_keeps_all<A>(all: Seq<A>, keep: spec_fn(A) -> bool)
    requires
        forall|i: int| 0 <= i < all.len() ==> keep(#[trigger] all[i]),
    ensures
        all.filter(keep) == all,
    decreases all.len(),
{
    reveal_with_fuel(Seq::filter, 2);
    if all.len() > 0 {
        let init = all.drop_last();
        lemma_filter_keeps_all(init, keep);
        assert(init.push(all.last()) =~= all);
    }
}

/// Where every item that passes `narrow` also passes `wide`, filtering by
/// `narrow` is filtering by `wide` and then by `narrow`.
pub proof fn lemma_filter_narrows<A>(
    all: Seq<A>,
    narrow: spec_fn(A) -> bool,
    wide: spec_fn(A) -> bool,
)
    requires
        forall|i: int| 0 <= i < all.len() && narrow(#[trigger] all[i]) ==> wide(all[i]),
    ensures
        all.filter(narrow) == all.filter(wide).filter(narrow),
    decreases all.len(),
{
    reveal_with_fuel(Seq::filter, 2);
    if all.len() > 0 {
        let init = all.drop_last();
        lemma_filter_narrows(init, narrow, wide);
        if wide(all.last()) {
            let kept = init.filter(wide);
            assert(kept.push(all.last()).drop_last() =~= kept);
        }
    }
}

} // verus!
