//! Choosing items of a sequence by position.

use vstd::prelude::*;

verus! {

/// The items of `items` whose position carries `true` in `keep`, in their order. A position
/// that `keep` does not reach is left out.
pub open spec fn pick<T>(items: Seq<T>, keep: Seq<bool>) -> Seq<T>
    decreases items.len(),
{
    if items.len() == 0 {
        Seq::empty()
    } else {
        let last = items.len() - 1;
        let front = pick(items.drop_last(), keep);
        if last < keep.len() && keep[last] {
            front.push(items.last())
        } else {
            front
        }
    }
}

/// An item at a kept position is among the picked ones.
pub proof fn lemma_pick_contains<T>(items: Seq<T>, keep: Seq<bool>, i: int)
    requires
        0 <= i < items.len(),
        i < keep.len(),
        keep[i],
    ensures
        pick(items, keep).contains(items[i]),
    decreases items.len(),
{
    let last = items.len() - 1;
    let front = pick(items.drop_last(), keep);
    if i == last {
        assert(front.push(items.last())[front.len() as int] == items[i]);
    } else {
        lemma_pick_contains(items.drop_last(), keep, i);
        let j = choose|j: int| 0 <= j < front.len() && front[j] == items.drop_last()[i];
        if last < keep.len() && keep[last] {
            assert(front.push(items.last())[j] == items[i]);
        }
    }
}

/// Every picked item stands at a kept position.
pub proof fn lemma_pick_only<T>(items: Seq<T>, keep: Seq<bool>, x: T)
    requires
        pick(items, keep).contains(x),
    ensures
        exists|i: int| 0 <= i < items.len() && i < keep.len() && keep[i] && items[i] == x,
    decreases items.len(),
{
    if items.len() > 0 {
        let last = items.len() - 1;
        let front = pick(items.drop_last(), keep);
        let picked = pick(items, keep);
        let j = choose|j: int| 0 <= j < picked.len() && picked[j] == x;
        if last < keep.len() && keep[last] && j == front.len() {
            assert(items[last] == x);
        } else {
            assert(front[j] == x);
            lemma_pick_only(items.drop_last(), keep, x);
            let i = choose|i: int|
                0 <= i < items.drop_last().len() && i < keep.len() && keep[i]
                    && items.drop_last()[i] == x;
            assert(items[i] == x);
        }
    }
}

/// Picking by the same marks from two lists of one length picks equally many from each.
pub proof fn lemma_pick_same_len<A, B>(left: Seq<A>, right: Seq<B>, keep: Seq<bool>)
    requires
        left.len() == right.len(),
    ensures
        pick(left, keep).len() == pick(right, keep).len(),
    decreases left.len(),
{
    if left.len() > 0 {
        lemma_pick_same_len(left.drop_last(), right.drop_last(), keep);
    }
}

/// The same items in the opposite order.
pub(crate) fn reversed<T>(items: Vec<T>) -> (turned: Vec<T>)
    ensures
        turned@ == items@.reverse(),
{
    let ghost orig = items@;
    let mut items = items;
    let mut turned: Vec<T> = Vec::new();
    while items.len() > 0
        invariant
            items.len() + turned.len() == orig.len(),
            forall|i: int| 0 <= i < items.len() ==> items[i] == orig[i],
            forall|j: int| 0 <= j < turned.len() ==> turned[j] == orig[orig.len() - 1 - j],
        decreases items.len(),
    {
        match items.pop() {
            Some(item) => {
                turned.push(item);
            },
            None => {},
        }
    }
    assert(turned@ =~= orig.reverse());
    turned
}

/// Moves out of `items` those whose position carries `true` in `keep`, in their order.
pub(crate) fn take_picked<T>(items: Vec<T>, keep: &Vec<bool>) -> (picked: Vec<T>)
    ensures
        picked@ == pick(items@, keep@),
{
    let ghost orig = items@;
    let mut items = items;
    let mut backwards: Vec<T> = Vec::new();
    while items.len() > 0
        invariant
            items.len() <= orig.len(),
            items@ == orig.take(items.len() as int),
            pick(orig, keep@) == pick(items@, keep@) + backwards@.reverse(),
        decreases items.len(),
    {
        let ghost before = items@;
        let ghost acc = backwards@;
        let last: usize = items.len() - 1;
        let kept: bool = last < keep.len() && keep[last];
        match items.pop() {
            Some(item) => {
                assert(items@ == before.drop_last());
                assert(items@ =~= orig.take(items.len() as int));
                if kept {
                    backwards.push(item);
                    assert(backwards@.reverse() =~= seq![item] + acc.reverse());
                    assert(pick(before, keep@) == pick(items@, keep@).push(item));
                    assert(pick(items@, keep@).push(item) + acc.reverse() =~= pick(items@, keep@)
                        + backwards@.reverse());
                }
            },
            None => {},
        }
    }
    assert(pick(items@, keep@) =~= Seq::<T>::empty());
    let picked = reversed(backwards);
    assert(picked@ =~= pick(orig, keep@));
    picked
}

} // verus!
