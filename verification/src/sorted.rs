//! Stable sorting of short lists.

use vstd::prelude::*;

use crate::keyed::{distinct, holds, lemma_holds, Keyed};
use crate::lists::empty_list;

verus! {

/// An item with a place in an order.
pub trait Ranked: Sized {
    /// Whether this item has to come before the other.
    spec fn before(&self, other: &Self) -> bool;
}

/// Where `x` goes in an ordered list: in front of the first item that has to come after
/// it.
pub open spec fn slot<T: Ranked>(s: Seq<T>, x: T) -> int
    decreases s.len(),
{
    if s.len() == 0 || x.before(&s[0]) {
        0
    } else {
        1 + slot(s.drop_first(), x)
    }
}

/// The list in order; items of which neither has to come before the other keep their
/// order.
pub open spec fn in_rank_order<T: Ranked>(s: Seq<T>) -> Seq<T>
    decreases s.len(),
{
    if s.len() == 0 {
        s
    } else {
        let head = in_rank_order(s.drop_last());
        head.insert(slot(head, s.last()), s.last())
    }
}

/// What `slot` finds.
pub proof fn lemma_slot<T: Ranked>(s: Seq<T>, x: T)
    ensures
        0 <= slot(s, x) <= s.len(),
        slot(s, x) < s.len() ==> x.before(&s[slot(s, x)]),
        forall|j: int| 0 <= j < slot(s, x) ==> !x.before(#[trigger] &s[j]),
    decreases s.len(),
{
    if s.len() > 0 && !x.before(&s[0]) {
        let rest = s.drop_first();
        lemma_slot(rest, x);
        assert forall|j: int| 0 <= j < slot(s, x) implies !x.before(#[trigger] &s[j]) by {
            if j > 0 {
                assert(rest[j - 1] == s[j]);
            }
        }
    }
}

proof fn lemma_slot_is<T: Ranked>(s: Seq<T>, x: T, n: int)
    requires
        0 <= n <= s.len(),
        n < s.len() ==> x.before(&s[n]),
        forall|j: int| 0 <= j < n ==> !x.before(#[trigger] &s[j]),
    ensures
        slot(s, x) == n,
{
    lemma_slot(s, x);
}

/// Sorting loses nothing, adds nothing and repeats nothing.
pub proof fn law_sorting_keeps_the_items<T: Ranked>(s: Seq<T>)
    ensures
        in_rank_order(s).len() == s.len(),
        in_rank_order(s).to_multiset() == s.to_multiset(),
    decreases s.len(),
{
    if s.len() > 0 {
        let head = s.drop_last();
        law_sorting_keeps_the_items(head);
        let t = in_rank_order(head);
        lemma_slot(t, s.last());
        let i = slot(t, s.last());
        t.to_multiset_ensures();
        head.to_multiset_ensures();
        assert(t.insert(i, s.last()).to_multiset() =~= t.to_multiset().insert(s.last())) by {
            vstd::seq_lib::to_multiset_insert(t, i, s.last());
        }
        assert(s =~= head.push(s.last()));
    }
}

/// Sorting keeps the keys of the items, and keeps them distinct.
pub proof fn law_sorting_keeps_the_keys<T: Ranked + Keyed>(s: Seq<T>)
    ensures
        forall|k: T::Key| #[trigger] holds(in_rank_order(s), k) == holds(s, k),
        distinct(s) ==> distinct(in_rank_order(s)),
    decreases s.len(),
{
    if s.len() > 0 {
        let head = s.drop_last();
        law_sorting_keeps_the_keys(head);
        let t = in_rank_order(head);
        let x = s.last();
        lemma_slot(t, x);
        let n = slot(t, x);
        let r = t.insert(n, x);
        assert forall|k: T::Key| #[trigger] holds(r, k) == holds(s, k) by {
            lemma_holds(r, k);
            lemma_holds(s, k);
            lemma_holds(t, k);
            lemma_holds(head, k);
            if holds(r, k) {
                let i = choose|i: int| 0 <= i < r.len() && (#[trigger] r[i]).key() == k;
                if i == n {
                    assert(s[s.len() - 1].key() == k);
                } else {
                    assert(t[if i < n {
                        i
                    } else {
                        i - 1
                    }].key() == k);
                    let j = choose|j: int| 0 <= j < head.len() && (#[trigger] head[j]).key() == k;
                    assert(s[j].key() == k);
                }
            }
            if holds(s, k) {
                let i = choose|i: int| 0 <= i < s.len() && (#[trigger] s[i]).key() == k;
                if i == s.len() - 1 {
                    assert(r[n].key() == k);
                } else {
                    assert(head[i].key() == k);
                    let j = choose|j: int| 0 <= j < t.len() && (#[trigger] t[j]).key() == k;
                    assert(r[if j < n {
                        j
                    } else {
                        j + 1
                    }].key() == k);
                }
            }
        }
        if distinct(s) {
            assert(distinct(head));
            lemma_holds(head, x.key());
            assert(!holds(head, x.key()));
            lemma_holds(t, x.key());
            assert(!holds(t, x.key()));
            assert forall|i: int, j: int| 0 <= i < j < r.len() implies (#[trigger] r[i]).key() != (
            #[trigger] r[j]).key() by {
                let a = if i < n {
                    i
                } else {
                    i - 1
                };
                let b = if j < n {
                    j
                } else {
                    j - 1
                };
                if i == n {
                    assert(r[j] == t[b]);
                } else if j == n {
                    assert(r[i] == t[a]);
                } else {
                    assert(r[i] == t[a]);
                    assert(r[j] == t[b]);
                }
            }
        }
    }
}

/// A relation that can order a list: of two items at most one comes first, and what comes
/// before one item comes before everything that does not come before that item.
pub open spec fn orders<T: Ranked>() -> bool {
    &&& forall|a: T, b: T| #[trigger] a.before(&b) ==> !b.before(&a)
    &&& forall|a: T, b: T, c: T|
        #![trigger a.before(&b), a.before(&c)]
        #![trigger a.before(&b), c.before(&b)]
        a.before(&b) ==> a.before(&c) || c.before(&b)
}

/// After sorting no item comes before one that stands earlier.
pub proof fn law_sorted_is_in_order<T: Ranked>(s: Seq<T>)
    requires
        orders::<T>(),
    ensures
        forall|i: int, j: int|
            0 <= i < j < in_rank_order(s).len() ==> !(#[trigger] in_rank_order(s)[j]).before(
                #[trigger] &in_rank_order(s)[i],
            ),
    decreases s.len(),
{
    if s.len() > 0 {
        let t = in_rank_order(s.drop_last());
        law_sorted_is_in_order(s.drop_last());
        let x = s.last();
        lemma_slot(t, x);
        let n = slot(t, x);
        let r = t.insert(n, x);
        assert(r == in_rank_order(s));
        assert forall|i: int, j: int| 0 <= i < j < r.len() implies !(#[trigger] r[j]).before(
            #[trigger] &r[i],
        ) by {
            if i == n {
                assert(r[j] == t[j - 1]);
                if n < j - 1 {
                    assert(!t[j - 1].before(&t[n]));
                }
                assert(x.before(&t[n]));
                if r[j].before(&r[i]) {
                    assert(t[j - 1].before(&x));
                    assert(x.before(&t[j - 1]) || t[j - 1].before(&t[n]));
                }
            } else if j == n {
                assert(r[i] == t[i]);
            } else {
                let a = if i < n {
                    i
                } else {
                    i - 1
                };
                let b = if j < n {
                    j
                } else {
                    j - 1
                };
                assert(r[i] == t[a]);
                assert(r[j] == t[b]);
            }
        }
    }
}

/// An executable item with a place in an order.
pub trait Rankable: DeepView + Sized where <Self as DeepView>::V: Ranked {
    fn goes_before(&self, other: &Self) -> (out: bool)
        ensures
            out == self.deep_view().before(&other.deep_view()),
    ;
}

/// Where `x` goes in an ordered list.
fn find_slot<T: Rankable>(items: &Vec<T>, x: &T) -> (at: usize) where <T as DeepView>::V: Ranked
    requires
        orders::<T::V>(),
        forall|i: int, j: int|
            0 <= i < j < items.deep_view().len() ==> !(#[trigger] items.deep_view()[j]).before(
                #[trigger] &items.deep_view()[i],
            ),
    ensures
        at == slot(items.deep_view(), x.deep_view()),
        at <= items@.len(),
{
    let ghost t = items.deep_view();
    let ghost k = x.deep_view();
    let mut low: usize = 0;
    let mut high: usize = items.len();
    while low < high
        invariant
            low <= high <= items@.len(),
            t == items.deep_view(),
            k == x.deep_view(),
            orders::<T::V>(),
            forall|i: int, j: int|
                0 <= i < j < t.len() ==> !(#[trigger] t[j]).before(#[trigger] &t[i]),
            forall|j: int| 0 <= j < low ==> !k.before(#[trigger] &t[j]),
            forall|j: int| high <= j < t.len() ==> k.before(#[trigger] &t[j]),
        decreases high - low,
    {
        let mid: usize = low + (high - low) / 2;
        let ghost m = t[mid as int];
        if x.goes_before(&items[mid]) {
            assert forall|j: int| mid <= j < t.len() implies k.before(#[trigger] &t[j]) by {
                if j > mid {
                    assert(!t[j].before(&m));
                    assert(k.before(&m));
                    assert(k.before(&t[j]) || t[j].before(&m));
                }
            }
            high = mid;
        } else {
            assert forall|j: int| 0 <= j < mid + 1 implies !k.before(#[trigger] &t[j]) by {
                if j < mid && k.before(&t[j]) {
                    assert(!m.before(&t[j]));
                    assert(k.before(&m) || m.before(&t[j]));
                }
            }
            low = mid + 1;
        }
    }
    proof {
        lemma_slot_is(t, k, low as int);
    }
    low
}

/// Sorts a list, keeping the order of items that rank the same.
pub fn sort_items<T: Rankable>(items: Vec<T>) -> (out: Vec<T>) where <T as DeepView>::V: Ranked
    requires
        orders::<T::V>(),
    ensures
        out.deep_view() == in_rank_order(items.deep_view()),
{
    let ghost all = items.deep_view();
    let mut left = items;
    let mut out: Vec<T> = empty_list();
    let ghost mut done: int = 0;
    while left.len() > 0
        invariant
            orders::<T::V>(),
            0 <= done <= all.len(),
            left.deep_view() == all.skip(done),
            out.deep_view() == in_rank_order(all.take(done)),
        decreases left@.len(),
    {
        let ghost rest = left.deep_view();
        assert(rest.len() == left@.len());
        let item = left.remove(0);
        let ghost x = item.deep_view();
        let ghost t = out.deep_view();
        proof {
            assert(rest[0] == x);
            assert(all.skip(done)[0] == all[done]);
            assert(all[done] == x);
            assert(left.deep_view() =~= rest.remove(0));
            assert(rest.remove(0) =~= all.skip(done + 1));
            assert(all.take(done + 1).drop_last() =~= all.take(done));
            assert(all.take(done + 1).last() == x);
            law_sorted_is_in_order(all.take(done));
        }
        let at: usize = find_slot(&out, &item);
        out.insert(at, item);
        proof {
            assert(out.deep_view() =~= t.insert(at as int, x));
            done = done + 1;
        }
    }
    assert(all.take(done) =~= all);
    out
}

} // verus!
