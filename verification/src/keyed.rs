//! Lists whose items carry a key, looked up by the first item that has it.
//!
//! Peers, links, sessions, transfers and discovered machines are all kept this
//! way: the order of insertion is the order on screen, and at most a handful of
//! items is ever present.

use vstd::prelude::*;

verus! {

/// An item that is looked up by a key.
pub trait Keyed {
    type Key;

    spec fn key(&self) -> Self::Key;
}

/// The position of the first item with key `k`; the length where there is none.
pub open spec fn index_of<T: Keyed>(s: Seq<T>, k: T::Key) -> int
    decreases s.len(),
{
    if s.len() == 0 {
        0
    } else if s[0].key() == k {
        0
    } else {
        1 + index_of(s.drop_first(), k)
    }
}

/// Whether some item has key `k`.
pub open spec fn holds<T: Keyed>(s: Seq<T>, k: T::Key) -> bool {
    index_of(s, k) < s.len()
}

/// The first item with key `k`.
pub open spec fn find<T: Keyed>(s: Seq<T>, k: T::Key) -> Option<T> {
    if holds(s, k) {
        Some(s[index_of(s, k)])
    } else {
        None
    }
}

/// `s` with `item` in the place of the first item with its key, or at the end where
/// there is none.
pub open spec fn put<T: Keyed>(s: Seq<T>, item: T) -> Seq<T> {
    if holds(s, item.key()) {
        s.update(index_of(s, item.key()), item)
    } else {
        s.push(item)
    }
}

/// `s` without the items that have key `k`.
pub open spec fn without<T: Keyed>(s: Seq<T>, k: T::Key) -> Seq<T>
    decreases s.len(),
{
    if s.len() == 0 {
        s
    } else if s.last().key() == k {
        without(s.drop_last(), k)
    } else {
        without(s.drop_last(), k).push(s.last())
    }
}

/// No two items share a key.
pub open spec fn distinct<T: Keyed>(s: Seq<T>) -> bool {
    forall|i: int, j: int|
        0 <= i < j < s.len() ==> (#[trigger] s[i]).key() != (#[trigger] s[j]).key()
}

/// What `index_of` finds.
pub broadcast proof fn lemma_index_of<T: Keyed>(s: Seq<T>, k: T::Key)
    ensures
        0 <= #[trigger] index_of(s, k) <= s.len(),
        index_of(s, k) < s.len() ==> s[index_of(s, k)].key() == k,
        forall|j: int| 0 <= j < index_of(s, k) ==> (#[trigger] s[j]).key() != k,
    decreases s.len(),
{
    if s.len() > 0 && s[0].key() != k {
        let rest = s.drop_first();
        lemma_index_of(rest, k);
        assert forall|j: int| 0 <= j < index_of(s, k) implies (#[trigger] s[j]).key() != k by {
            if j > 0 {
                assert(rest[j - 1] == s[j]);
            }
        }
    }
}

/// The position of the first match is the only one with that property.
pub proof fn lemma_index_is<T: Keyed>(s: Seq<T>, k: T::Key, i: int)
    requires
        0 <= i <= s.len(),
        i < s.len() ==> s[i].key() == k,
        forall|j: int| 0 <= j < i ==> (#[trigger] s[j]).key() != k,
    ensures
        index_of(s, k) == i,
{
    lemma_index_of(s, k);
}

/// A key is present exactly where some item has it.
pub proof fn lemma_holds<T: Keyed>(s: Seq<T>, k: T::Key)
    ensures
        holds(s, k) <==> exists|i: int| 0 <= i < s.len() && (#[trigger] s[i]).key() == k,
{
    lemma_index_of(s, k);
}

/// A list holds the keys of its parts.
pub proof fn lemma_holds_joined<T: Keyed>(a: Seq<T>, b: Seq<T>, k: T::Key)
    ensures
        holds(a + b, k) <==> holds(a, k) || holds(b, k),
{
    lemma_holds(a, k);
    lemma_holds(b, k);
    lemma_holds(a + b, k);
    if holds(a, k) {
        let i = choose|i: int| 0 <= i < a.len() && (#[trigger] a[i]).key() == k;
        assert((a + b)[i].key() == k);
    }
    if holds(b, k) {
        let i = choose|i: int| 0 <= i < b.len() && (#[trigger] b[i]).key() == k;
        assert((a + b)[a.len() + i].key() == k);
    }
}

/// Lists that share no key make a list with distinct keys.
pub proof fn lemma_distinct_joined<T: Keyed>(a: Seq<T>, b: Seq<T>)
    requires
        distinct(a),
        distinct(b),
        forall|k: T::Key| #[trigger] holds(a, k) ==> !holds(b, k),
    ensures
        distinct(a + b),
{
    let all = a + b;
    assert forall|i: int, j: int| 0 <= i < j < all.len() implies (#[trigger] all[i]).key() != (
    #[trigger] all[j]).key() by {
        if i < a.len() && j >= a.len() {
            lemma_holds(a, a[i].key());
            lemma_holds(b, a[i].key());
            assert(holds(a, a[i].key()));
            assert(b[j - a.len()] == all[j]);
        }
    }
}

/// Removing keeps exactly the items with another key.
pub proof fn lemma_without<T: Keyed>(s: Seq<T>, k: T::Key)
    ensures
        !holds(without(s, k), k),
        forall|x: T| #[trigger] without(s, k).contains(x) <==> s.contains(x) && x.key() != k,
        without(s, k).len() <= s.len(),
        without(s, k).len() == s.len() <==> !holds(s, k),
        !holds(s, k) ==> without(s, k) == s,
    decreases s.len(),
{
    if s.len() > 0 {
        let head = s.drop_last();
        lemma_without(head, k);
        lemma_holds(s, k);
        lemma_holds(head, k);
        lemma_holds(without(s, k), k);
        lemma_holds(without(head, k), k);
        let w = without(s, k);
        let wh = without(head, k);
        assert forall|x: T| #[trigger] w.contains(x) <==> s.contains(x) && x.key() != k by {
            if w.contains(x) {
                let i = choose|i: int| 0 <= i < w.len() && w[i] == x;
                if s.last().key() != k && i == w.len() - 1 {
                    assert(s[s.len() - 1] == x);
                } else {
                    assert(wh[i] == x);
                    assert(wh.contains(x));
                    let j = choose|j: int| 0 <= j < head.len() && head[j] == x;
                    assert(s[j] == x);
                }
            }
            if s.contains(x) && x.key() != k {
                let i = choose|i: int| 0 <= i < s.len() && s[i] == x;
                if i == s.len() - 1 {
                    assert(w[w.len() - 1] == x);
                } else {
                    assert(head[i] == x);
                    assert(wh.contains(x));
                    let j = choose|j: int| 0 <= j < wh.len() && wh[j] == x;
                    assert(w[j] == x);
                }
            }
        }
        if holds(w, k) {
            let i = choose|i: int| 0 <= i < w.len() && (#[trigger] w[i]).key() == k;
            assert(w.contains(w[i]));
        }
        if !holds(s, k) {
            assert(s.last().key() != k);
            if holds(head, k) {
                let i = choose|i: int| 0 <= i < head.len() && (#[trigger] head[i]).key() == k;
                assert(s[i].key() == k);
            }
            assert(w =~= s);
        } else {
            let i = choose|i: int| 0 <= i < s.len() && (#[trigger] s[i]).key() == k;
            if i < s.len() - 1 {
                assert(head[i].key() == k);
            }
        }
    } else {
        lemma_holds(s, k);
    }
}

/// What was put under a key is what is found under it.
pub proof fn law_find_after_put<T: Keyed>(s: Seq<T>, item: T)
    ensures
        find(put(s, item), item.key()) == Some(item),
{
    let k = item.key();
    lemma_index_of(s, k);
    lemma_index_is(put(s, item), k, index_of(s, k));
}

/// Putting an item leaves every other key as it was.
pub proof fn law_put_leaves_others<T: Keyed>(s: Seq<T>, item: T, other: T::Key)
    requires
        other != item.key(),
    ensures
        find(put(s, item), other) == find(s, other),
        holds(put(s, item), other) == holds(s, other),
{
    let k = item.key();
    lemma_index_of(s, k);
    lemma_index_of(s, other);
    let p = put(s, item);
    if holds(s, other) {
        lemma_index_is(p, other, index_of(s, other));
    } else {
        lemma_index_is(p, other, p.len() as int);
    }
}

/// After a removal the key is gone.
pub proof fn law_find_after_without<T: Keyed>(s: Seq<T>, k: T::Key)
    ensures
        find(without(s, k), k) == None::<T>,
{
    lemma_without(s, k);
}

/// A removal leaves every other key as it was.
pub proof fn law_without_leaves_others<T: Keyed>(s: Seq<T>, k: T::Key, other: T::Key)
    requires
        other != k,
    ensures
        find(without(s, k), other) == find(s, other),
        holds(without(s, k), other) == holds(s, other),
    decreases s.len(),
{
    if s.len() > 0 {
        let head = s.drop_last();
        law_without_leaves_others(head, k, other);
        lemma_index_of(s, other);
        lemma_index_of(head, other);
        lemma_index_of(without(head, k), other);
        assert(forall|j: int| 0 <= j < head.len() ==> #[trigger] s[j] == head[j]);
        assert(forall|j: int|
            0 <= j < without(head, k).len() ==> #[trigger] without(s, k)[j] == without(head, k)[j]);
        if holds(head, other) {
            lemma_index_is(s, other, index_of(head, other));
            let wh = without(head, k);
            lemma_index_is(without(s, k), other, index_of(wh, other));
        } else if s.last().key() == other {
            lemma_index_is(s, other, s.len() - 1);
            lemma_index_is(without(s, k), other, without(head, k).len() as int);
        } else {
            lemma_index_is(s, other, s.len() as int);
            lemma_index_is(without(s, k), other, without(s, k).len() as int);
        }
    }
}

/// Putting and removing keep the keys distinct.
pub proof fn law_keys_stay_distinct<T: Keyed>(s: Seq<T>, item: T, k: T::Key)
    requires
        distinct(s),
    ensures
        distinct(put(s, item)),
        distinct(without(s, k)),
    decreases s.len(),
{
    lemma_index_of(s, item.key());
    if s.len() > 0 {
        let head = s.drop_last();
        assert(distinct(head));
        law_keys_stay_distinct(head, item, k);
        lemma_without(head, k);
        let w = without(s, k);
        let wh = without(head, k);
        if s.last().key() != k {
            assert forall|i: int, j: int| 0 <= i < j < w.len() implies (#[trigger] w[i]).key()
                != (#[trigger] w[j]).key() by {
                if j == w.len() - 1 {
                    assert(wh.contains(wh[i]));
                    let n = choose|n: int| 0 <= n < head.len() && head[n] == wh[i];
                    assert(s[n] == wh[i]);
                    assert(s[s.len() - 1] == w[j]);
                } else {
                    assert(wh[i] == w[i] && wh[j] == w[j]);
                }
            }
        }
    }
}

/// An executable item of such a list.
pub trait Entry: DeepView where <Self as DeepView>::V: Keyed {
    type Id;

    spec fn id_view(id: Self::Id) -> <<Self as DeepView>::V as Keyed>::Key;

    fn has_id(&self, id: &Self::Id) -> (found: bool)
        ensures
            found == (self.deep_view().key() == Self::id_view(*id)),
    ;
}

/// Finds the first item with the given id; the length where there is none.
pub fn position<T: Entry>(items: &Vec<T>, id: &T::Id) -> (at: usize) where
    <T as DeepView>::V: Keyed,

    ensures
        at == index_of(items.deep_view(), T::id_view(*id)),
        at <= items@.len(),
        at < items@.len() ==> items.deep_view()[at as int].key() == T::id_view(*id),
{
    let ghost k = T::id_view(*id);
    let mut i: usize = 0;
    while i < items.len()
        invariant
            i <= items@.len(),
            k == T::id_view(*id),
            forall|j: int| 0 <= j < i ==> (#[trigger] items.deep_view()[j]).key() != k,
        decreases items@.len() - i,
    {
        if items[i].has_id(id) {
            proof {
                lemma_index_is(items.deep_view(), k, i as int);
            }
            return i;
        }
        i += 1;
    }
    proof {
        lemma_index_is(items.deep_view(), k, i as int);
    }
    i
}

/// Replaces the first item with the same id, or appends the new one.
pub fn replace_or_push<T: Entry>(items: &mut Vec<T>, id: &T::Id, item: T) where
    <T as DeepView>::V: Keyed,

    requires
        item.deep_view().key() == T::id_view(*id),
    ensures
        final(items).deep_view() == put(old(items).deep_view(), item.deep_view()),
{
    let at: usize = position(items, id);
    let ghost before = items.deep_view();
    if at < items.len() {
        items.set(at, item);
        assert(items.deep_view() =~= before.update(at as int, item.deep_view()));
    } else {
        items.push(item);
        assert(items.deep_view() =~= before.push(item.deep_view()));
    }
}

/// Removes every item with the given id; says whether there was one.
pub fn remove_all<T: Entry>(items: &mut Vec<T>, id: &T::Id) -> (removed: bool) where
    <T as DeepView>::V: Keyed,

    ensures
        final(items).deep_view() == without(old(items).deep_view(), T::id_view(*id)),
        removed == holds(old(items).deep_view(), T::id_view(*id)),
{
    let ghost k = T::id_view(*id);
    let ghost all = items.deep_view();
    let mut kept: usize = 0;
    let ghost mut seen: int = 0;
    let before: usize = items.len();
    while kept < items.len()
        invariant
            k == T::id_view(*id),
            0 <= seen <= all.len(),
            kept <= items@.len(),
            items@.len() - kept == all.len() - seen,
            items.deep_view().take(kept as int) == without(all.take(seen), k),
            items.deep_view().skip(kept as int) == all.skip(seen),
        decreases items@.len() - kept,
    {
        let ghost now = items.deep_view();
        proof {
            assert(now[kept as int] == now.skip(kept as int)[0]);
            assert(all[seen] == all.skip(seen)[0]);
            assert(all.take(seen + 1).drop_last() =~= all.take(seen));
        }
        if items[kept].has_id(id) {
            let _ = items.remove(kept);
            proof {
                assert(items.deep_view() =~= now.remove(kept as int));
                assert(items.deep_view().take(kept as int) =~= now.take(kept as int));
                assert(items.deep_view().skip(kept as int) =~= now.skip(kept as int).drop_first());
            }
        } else {
            kept += 1;
            proof {
                assert(now.take(kept as int) =~= now.take(kept as int - 1).push(now[kept - 1]));
                assert(now.skip(kept as int) =~= now.skip(kept as int - 1).drop_first());
            }
        }
        proof {
            assert(all.skip(seen + 1) =~= all.skip(seen).drop_first());
            seen = seen + 1;
        }
    }
    proof {
        assert(all.take(seen) =~= all);
        assert(items.deep_view().take(kept as int) =~= items.deep_view());
        lemma_without(all, k);
    }
    before != items.len()
}

} // verus!
