//! Changing a list and its contents in step.

use vstd::prelude::*;

verus! {

/// Appends an item.
pub fn push_item<T: DeepView>(items: &mut Vec<T>, item: T)
    ensures
        final(items).deep_view() == old(items).deep_view().push(item.deep_view()),
        final(items)@ == old(items)@.push(item),
{
    let ghost before = items.deep_view();
    items.push(item);
    assert(items.deep_view() =~= before.push(item.deep_view()));
}

/// Replaces the item at a position.
pub fn set_item<T: DeepView>(items: &mut Vec<T>, at: usize, item: T)
    requires
        at < old(items)@.len(),
    ensures
        final(items).deep_view() == old(items).deep_view().update(at as int, item.deep_view()),
        final(items)@ == old(items)@.update(at as int, item),
{
    let ghost before = items.deep_view();
    items.set(at, item);
    assert(items.deep_view() =~= before.update(at as int, item.deep_view()));
}

/// An empty list.
pub fn empty_list<T: DeepView>() -> (items: Vec<T>)
    ensures
        items.deep_view() == Seq::<T::V>::empty(),
        items@.len() == 0,
{
    let items: Vec<T> = Vec::new();
    assert(items.deep_view() =~= Seq::<T::V>::empty());
    items
}

} // verus!
