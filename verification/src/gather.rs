//! Lists gathered from the items of other lists.

use vstd::prelude::*;

verus! {

/// What `f` gives for the items, one after the other.
pub open spec fn gather<A, B>(items: Seq<A>, f: spec_fn(A) -> Seq<B>) -> Seq<B>
    decreases items.len(),
{
    if items.len() == 0 {
        Seq::empty()
    } else {
        gather(items.drop_last(), f) + f(items.last())
    }
}

/// What is gathered from two lists, one after the other, is gathered from each.
pub proof fn lemma_gather_add<A, B>(a: Seq<A>, b: Seq<A>, f: spec_fn(A) -> Seq<B>)
    ensures
        gather(a + b, f) == gather(a, f) + gather(b, f),
    decreases b.len(),
{
    if b.len() == 0 {
        assert(a + b =~= a);
    } else {
        assert((a + b).drop_last() =~= a + b.drop_last());
        assert((a + b).last() == b.last());
        lemma_gather_add(a, b.drop_last(), f);
        assert(gather(a + b, f) =~= gather(a, f) + gather(b, f));
    }
}

/// What is gathered from one item.
pub proof fn lemma_gather_one<A, B>(item: A, f: spec_fn(A) -> Seq<B>)
    ensures
        gather(seq![item], f) == f(item),
{
    reveal_with_fuel(gather, 2);
    assert(seq![item].drop_last() =~= Seq::<A>::empty());
    assert(gather(seq![item], f) =~= f(item));
}

/// What is gathered from two items.
pub proof fn lemma_gather_two<A, B>(a: A, b: A, f: spec_fn(A) -> Seq<B>)
    ensures
        gather(seq![a, b], f) == f(a) + f(b),
{
    assert(seq![a, b] =~= seq![a] + seq![b]);
    lemma_gather_add(seq![a], seq![b], f);
    lemma_gather_one(a, f);
    lemma_gather_one(b, f);
}

/// Nothing is gathered from items that give nothing.
pub proof fn lemma_silent<A, B>(items: Seq<A>, f: spec_fn(A) -> Seq<B>)
    requires
        forall|i: int| 0 <= i < items.len() ==> f(#[trigger] items[i]) == Seq::<B>::empty(),
    ensures
        gather(items, f) == Seq::<B>::empty(),
    decreases items.len(),
{
    if items.len() > 0 {
        assert forall|i: int| 0 <= i < items.drop_last().len() implies f(
            #[trigger] items.drop_last()[i],
        ) == Seq::<B>::empty() by {
            assert(items.drop_last()[i] == items[i]);
        }
        lemma_silent(items.drop_last(), f);
        assert(f(items[items.len() - 1]) == Seq::<B>::empty());
        assert(gather(items, f) =~= Seq::<B>::empty());
    }
}

} // verus!
