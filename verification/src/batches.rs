//! Items that are sent in batches.
use vstd::prelude::*;

verus! {

/// The items of all batches, in order.
pub open spec fn concatenated<A>(batches: Seq<Seq<A>>) -> Seq<A>
    decreases batches.len(),
{
    if batches.len() == 0 {
        seq![]
    } else {
        concatenated(batches.drop_last()) + batches.last()
    }
}

/// No batch is empty, and none holds more than `size` items.
pub open spec fn bounded<A>(batches: Seq<Seq<A>>, size: int) -> bool {
    forall|i: int| 0 <= i < batches.len() ==> 0 < (#[trigger] batches[i]).len() <= size
}

/// Every batch but the last holds `size` items.
pub open spec fn filled<A>(batches: Seq<Seq<A>>, size: int) -> bool {
    forall|i: int| 0 <= i < batches.len() - 1 ==> (#[trigger] batches[i]).len() == size
}

pub(crate) proof fn lemma_concatenated_push<A>(batches: Seq<Seq<A>>, batch: Seq<A>)
    ensures
        concatenated(batches.push(batch)) == concatenated(batches) + batch,
{
    assert(batches.push(batch).drop_last() == batches);
}

/// Batches are joined one behind the other: those of two runs as the runs are, and one batch alone
/// as it is.
pub proof fn batches_are_joined_in_order<A>(first: Seq<Seq<A>>, second: Seq<Seq<A>>, batch: Seq<A>)
    ensures
        concatenated(first + second) == concatenated(first) + concatenated(second),
        concatenated(seq![batch]) == batch,
        concatenated(Seq::<Seq<A>>::empty()) == Seq::<A>::empty(),
    decreases second.len(),
{
    assert(concatenated(Seq::<Seq<A>>::empty()) =~= Seq::<A>::empty());
    lemma_concatenated_push(Seq::<Seq<A>>::empty(), batch);
    assert(Seq::<Seq<A>>::empty().push(batch) =~= seq![batch]);
    assert(Seq::<A>::empty() + batch =~= batch);
    if second.len() == 0 {
        assert(first + second =~= first);
        assert(concatenated(first) + concatenated(second) =~= concatenated(first));
    } else {
        batches_are_joined_in_order(first, second.drop_last(), batch);
        assert((first + second).drop_last() =~= first + second.drop_last());
        assert(concatenated(first + second) =~= concatenated(first) + concatenated(second));
    }
}


} // verus!
