//! A table of values under numbers, each number once.

use std::collections::BTreeMap;

use vstd::prelude::*;
use vstd::std_specs::iter::IteratorSpec;

verus! {

broadcast use vstd::std_specs::btree::group_btree_axioms;

/// Values under numbers.
pub struct Table<V> {
    entries: BTreeMap<u32, V>,
}

impl<V> View for Table<V> {
    type V = Map<u32, V>;

    closed spec fn view(&self) -> Map<u32, V> {
        self.entries@
    }
}

impl<V> Table<V> {
    pub fn new() -> (r: Table<V>)
        ensures
            r@ == Map::<u32, V>::empty(),
    {
        Table { entries: BTreeMap::new() }
    }

    pub fn len(&self) -> (n: usize)
        ensures
            n == self@.len(),
    {
        self.entries.len()
    }

    /// The numbers in the table, each once.
    pub fn keys(&self) -> (r: Vec<u32>)
        ensures
            forall|i: int| 0 <= i < r@.len() ==> self@.contains_key(#[trigger] r@[i]),
            forall|k: u32| #[trigger] self@.contains_key(k) ==> r@.contains(k),
            r@.no_duplicates(),
    {
        let mut r: Vec<u32> = Vec::new();
        let ghost all = self.entries.keys().remaining().unref();
        for k in it: self.entries.keys()
            invariant
                all == it.seq().unref(),
                r@ == all.take(it.index()),
        {
            r.push(*k);
            assert(r@ =~= all.take(it.index() + 1));
        }
        assert(r@ =~= all);
        assert forall|k: u32| #[trigger] self@.contains_key(k) implies r@.contains(k) by {
            assert(r@.to_set().contains(k));
        }
        r
    }

    pub fn is_empty(&self) -> (b: bool)
        ensures
            b == (self@.dom() =~= Set::<u32>::empty()),
    {
        self.entries.is_empty()
    }

    pub fn get(&self, k: u32) -> (r: Option<&V>)
        ensures
            r is Some == self@.contains_key(k),
            r matches Some(v) ==> *v == self@[k],
    {
        self.entries.get(&k)
    }

    /// Put a value under a number, in place of any that was there.
    pub fn insert(&mut self, k: u32, v: V)
        ensures
            final(self)@ == old(self)@.insert(k, v),
    {
        let _ = self.entries.insert(k, v);
    }

    /// Take the value under a number away. Whether there was one is returned.
    pub fn remove(&mut self, k: u32) -> (b: bool)
        ensures
            b == old(self)@.contains_key(k),
            final(self)@ == old(self)@.remove(k),
    {
        self.entries.remove(&k).is_some()
    }
}

/// A value stands under its number from when it was put there until it is
/// taken away, and other numbers are not touched.
pub proof fn values_stand_under_their_number<V>(
    put: &mut Table<V>,
    taken: &mut Table<V>,
    fresh: Table<V>,
    k: u32,
    other: u32,
    v: V,
    b: bool,
)
    requires
        call_ensures(Table::<V>::insert, (put, k, v), ()),
        call_ensures(Table::<V>::remove, (taken, k), b),
        call_ensures(Table::<V>::new, (), fresh),
        other != k,
    ensures
        final(put)@.contains_key(k) && final(put)@[k] == v,
        final(put)@.contains_key(other) == old(put)@.contains_key(other),
        old(put)@.contains_key(other) ==> final(put)@[other] == old(put)@[other],
        !final(taken)@.contains_key(k),
        b <==> old(taken)@.contains_key(k),
        final(taken)@.contains_key(other) == old(taken)@.contains_key(other),
        old(taken)@.contains_key(other) ==> final(taken)@[other] == old(taken)@[other],
        !fresh@.contains_key(k),
{
}

/// What was put under a number is read back there, and the numbers, their
/// count and whether there are any tell of what the table holds.
pub proof fn a_table_gives_back_what_it_holds<V>(
    t: &mut Table<V>,
    after: &Table<V>,
    k: u32,
    other: u32,
    v: V,
    r: Option<&V>,
    s: Option<&V>,
    all: Vec<u32>,
    empty: bool,
)
    requires
        call_ensures(Table::<V>::insert, (t, k, v), ()),
        *after == *final(t),
        call_ensures(Table::<V>::get, (after, k), r),
        call_ensures(Table::<V>::get, (after, other), s),
        call_ensures(Table::<V>::keys, (after,), all),
        call_ensures(Table::<V>::is_empty, (after,), empty),
        other != k,
    ensures
        r is Some && *r->0 == v,
        s is Some <==> old(t)@.contains_key(other),
        s is Some ==> *s->0 == old(t)@[other],
        all@.contains(k),
        all@.contains(other) <==> old(t)@.contains_key(other),
        forall|i: int, j: int| 0 <= i < j < all@.len() ==> all@[i] != all@[j],
        !empty,
{
    assert(after@.contains_key(k));
    assert(after@.dom().contains(k));
    if all@.contains(other) {
        let i = choose|i: int| 0 <= i < all@.len() && all@[i] == other;
        assert(after@.contains_key(all@[i]));
    }
    if old(t)@.contains_key(other) {
        assert(after@.contains_key(other));
    }
}

} // verus!
