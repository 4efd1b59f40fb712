//! Observable keyed store with self-contained removal.
//!
//! An [`RcHashMapSignal`] maps keys to independently observable value cells.
//! Every insertion hands back an [`RcHashMapItem`]: a removal capability
//! that deletes exactly the entry it was created for, without the holder
//! having to re-supply the key. A capability is stamped when it is issued;
//! overwriting a key discards the stamped entry, so the older capability
//! becomes a harmless no-op against the live store.

use vstd::prelude::*;
use vstd::assert_by_contradiction;
use std::rc::Rc;
use vstd::std_specs::cmp::PartialEqSpec;
use crate::reactive::ValueCell;

verus! {

/// Index of the first entry of `s` whose key equals `key`; `s.len()` when
/// no entry matches.
pub open spec fn key_index<K: PartialEqSpec, V>(s: Seq<(K, u64, V)>, key: K) -> int
    decreases s.len(),
{
    if s.len() == 0 {
        0
    } else if s[0].0.eq_spec(&key) {
        0
    } else {
        1 + key_index(s.subrange(1, s.len() as int), key)
    }
}

/// Index of the entry of `s` carrying `stamp`; `s.len()` when none does.
pub open spec fn stamp_index<K, V>(s: Seq<(K, u64, V)>, stamp: u64) -> int
    decreases s.len(),
{
    if s.len() == 0 {
        0
    } else if s[0].1 == stamp {
        0
    } else {
        1 + stamp_index(s.subrange(1, s.len() as int), stamp)
    }
}

/// The store after inserting `value` under `key` with the fresh `stamp`:
/// an entry under an equal key is overwritten in place, stamp and all;
/// otherwise the new entry is appended.
pub open spec fn spec_inserted<K: PartialEqSpec, V>(
    s: Seq<(K, u64, V)>,
    key: K,
    stamp: u64,
    value: V,
) -> Seq<(K, u64, V)> {
    if key_index(s, key) < s.len() {
        s.update(key_index(s, key), (key, stamp, value))
    } else {
        s.push((key, stamp, value))
    }
}

/// The store after invoking a removal capability carrying `stamp`: the
/// stamped entry leaves if it is still present, and nothing happens if it
/// was already removed or overwritten.
pub open spec fn spec_removed<K, V>(s: Seq<(K, u64, V)>, stamp: u64) -> Seq<(K, u64, V)> {
    if stamp_index(s, stamp) < s.len() {
        s.remove(stamp_index(s, stamp))
    } else {
        s
    }
}

/// The store built by inserting the pairs in order, each with the next
/// stamp in turn; a later pair overwrites an earlier equal key.
pub open spec fn spec_from_pairs<K: PartialEqSpec, V>(pairs: Seq<(K, V)>) -> Seq<(K, u64, V)>
    decreases pairs.len(),
{
    if pairs.len() == 0 {
        Seq::empty()
    } else {
        spec_inserted(
            spec_from_pairs(pairs.drop_last()),
            pairs.last().0,
            (pairs.len() - 1) as u64,
            pairs.last().1,
        )
    }
}

pub proof fn lemma_key_index<K: PartialEqSpec, V>(s: Seq<(K, u64, V)>, key: K)
    ensures
        0 <= key_index(s, key) <= s.len(),
        key_index(s, key) < s.len() ==> s[key_index(s, key)].0.eq_spec(&key),
        forall|j: int| 0 <= j < key_index(s, key) ==> !s[j].0.eq_spec(&key),
    decreases s.len(),
{
    if s.len() == 0 {
    } else if s[0].0.eq_spec(&key) {
    } else {
        let sub = s.subrange(1, s.len() as int);
        lemma_key_index(sub, key);
        assert forall|j: int| 0 <= j < key_index(s, key) implies !s[j].0.eq_spec(&key) by {
            if j > 0 {
                assert(s[j] == sub[j - 1]);
            }
        }
    }
}

pub proof fn lemma_stamp_index<K, V>(s: Seq<(K, u64, V)>, stamp: u64)
    ensures
        0 <= stamp_index(s, stamp) <= s.len(),
        stamp_index(s, stamp) < s.len() ==> s[stamp_index(s, stamp)].1 == stamp,
        forall|j: int| 0 <= j < stamp_index(s, stamp) ==> s[j].1 != stamp,
    decreases s.len(),
{
    if s.len() == 0 {
    } else if s[0].1 == stamp {
    } else {
        let sub = s.subrange(1, s.len() as int);
        lemma_stamp_index(sub, stamp);
        assert forall|j: int| 0 <= j < stamp_index(s, stamp) implies s[j].1 != stamp by {
            if j > 0 {
                assert(s[j] == sub[j - 1]);
            }
        }
    }
}

/// Observable keyed store; every value sits in its own observable cell, and
/// every entry can be removed through the capability issued when it was
/// inserted.
#[verifier::reject_recursive_types(K)]
#[verifier::reject_recursive_types(V)]
pub struct RcHashMapSignal<K, V> {
    entries: Vec<(K, u64, ValueCell<V>)>,
    next_stamp: u64,
}

/// Removal capability for one keyed entry: deletes exactly the entry it was
/// issued for, and does nothing once that entry has been removed or
/// overwritten.
pub struct RcHashMapItem {
    stamp: u64,
}

impl RcHashMapItem {
    /// The stamp identifying the entry this capability was issued for.
    pub closed spec fn stamp(&self) -> u64 {
        self.stamp
    }
}

impl<K, V> View for RcHashMapSignal<K, V> {
    type V = Seq<(K, u64, V)>;

    closed spec fn view(&self) -> Seq<(K, u64, V)> {
        Seq::new(
            self.entries@.len(),
            |i: int| (self.entries@[i].0, self.entries@[i].1, self.entries@[i].2@),
        )
    }
}

impl<K: PartialEqSpec, V> RcHashMapSignal<K, V> {
    /// Every issued stamp is below this bound; it grows by one with each
    /// insertion.
    pub closed spec fn stamp_bound(&self) -> u64 {
        self.next_stamp
    }

    /// Well-formedness: key equality is faithfully decidable, and the
    /// entries carry pairwise distinct stamps below the bound.
    pub closed spec fn wf(&self) -> bool {
        &&& K::obeys_eq_spec()
        &&& forall|i: int| 0 <= i < self@.len() ==> (#[trigger] self@[i].1) < self.next_stamp
        &&& forall|i: int, j: int|
            0 <= i < j < self@.len() ==> (#[trigger] self@[i].1) != (#[trigger] self@[j].1)
    }

    /// First index holding a key equal to `key`, or the number of entries
    /// when no key matches.
    fn index_of_key(&self, key: &K) -> (r: usize)
        requires
            self.wf(),
        ensures
            r == key_index(self@, *key),
    {
        let n = self.entries.len();
        let mut i: usize = 0;
        proof {
            lemma_key_index(self@, *key);
        }
        while i < n
            invariant
                self.wf(),
                n == self@.len(),
                i <= n,
                0 <= key_index(self@, *key) <= self@.len(),
                key_index(self@, *key) < self@.len() ==> self@[key_index(
                    self@,
                    *key,
                )].0.eq_spec(key),
                forall|j: int| 0 <= j < key_index(self@, *key) ==> !self@[j].0.eq_spec(key),
                forall|j: int| 0 <= j < i ==> !self@[j].0.eq_spec(key),
            decreases n - i,
        {
            if self.entries[i].0 == *key {
                proof {
                    assert(self@[i as int].0.eq_spec(key));
                    assert(key_index(self@, *key) <= i);
                    assert(key_index(self@, *key) >= i);
                }
                return i;
            }
            i += 1;
        }
        proof {
            assert(key_index(self@, *key) == self@.len());
        }
        n
    }

    /// Create a store from the given pairs, inserting them in order, so a
    /// later pair overwrites an earlier equal key.
    pub fn new(initial: Vec<(K, V)>) -> (r: RcHashMapSignal<K, V>)
        requires
            K::obeys_eq_spec(),
        ensures
            r.wf(),
            r@ == spec_from_pairs(initial@),
            r.stamp_bound() == initial@.len(),
    {
        let mut initial = initial;
        let mut r = RcHashMapSignal { entries: Vec::new(), next_stamp: 0u64 };
        let ghost all: Seq<(K, V)> = initial@;
        let total = initial.len();
        proof {
            assert(all.len() == total);
            assert(r@ =~= Seq::<(K, u64, V)>::empty());
            assert(all.take(0) =~= Seq::<(K, V)>::empty());
        }
        let mut k: usize = 0;
        while initial.len() > 0
            invariant
                K::obeys_eq_spec(),
                r.wf(),
                all.len() <= usize::MAX,
                k + initial@.len() == all.len(),
                all.skip(k as int) == initial@,
                r@ == spec_from_pairs(all.take(k as int)),
                r.stamp_bound() == k,
            decreases initial.len(),
        {
            let (key, value) = initial.remove(0);
            let ghost prev = r@;
            proof {
                assert(k < all.len());
                assert(r.stamp_bound() < u64::MAX);
            }
            r.insert(key, value);
            k += 1;
            proof {
                assert(all.take(k as int).drop_last() =~= all.take(k as int - 1));
                assert(all.take(k as int).last() == all[k as int - 1]);
                assert(all[k as int - 1] == (key, value));
                assert(all.skip(k as int) =~= initial@);
            }
        }
        proof {
            assert(all.take(all.len() as int) =~= all);
        }
        r
    }

    /// Insert `value` under `key`, issuing a fresh removal capability for
    /// the new entry. An entry already present under an equal key is
    /// overwritten together with its stamp, which makes the capability
    /// issued for it a no-op from now on.
    pub fn insert(&mut self, key: K, value: V) -> (item: RcHashMapItem)
        requires
            old(self).wf(),
            old(self).stamp_bound() < u64::MAX,
        ensures
            final(self).wf(),
            final(self)@ == spec_inserted(old(self)@, key, old(self).stamp_bound(), value),
            item.stamp() == old(self).stamp_bound(),
            final(self).stamp_bound() == old(self).stamp_bound() + 1,
    {
        let stamp = self.next_stamp;
        let i = self.index_of_key(&key);
        let cell = ValueCell::new(value);
        let ghost s0 = self@;
        proof {
            lemma_key_index(s0, key);
        }
        if i < self.entries.len() {
            *vstd::std_specs::vec::vec_index_mut(&mut self.entries, i) = (key, stamp, cell);
            proof {
                assert(self@ =~= s0.update(i as int, (key, stamp, value)));
            }
        } else {
            self.entries.push((key, stamp, cell));
            proof {
                assert(self@ =~= s0.push((key, stamp, value)));
            }
        }
        self.next_stamp = stamp + 1;
        RcHashMapItem { stamp }
    }

    /// Number of entries currently in the store.
    pub fn len(&self) -> (r: usize)
        ensures
            r == self@.len(),
    {
        self.entries.len()
    }

    /// Current value of the first entry whose key equals `key`, read from
    /// its cell, or none when no key matches.
    pub fn get(&self, key: &K) -> (r: Option<Rc<V>>)
        requires
            self.wf(),
        ensures
            match r {
                Some(v) => key_index(self@, *key) < self@.len() && v == self@[key_index(
                    self@,
                    *key,
                )].2,
                None => key_index(self@, *key) == self@.len(),
            },
    {
        proof {
            lemma_key_index(self@, *key);
        }
        let i = self.index_of_key(key);
        if i < self.entries.len() {
            Some(self.entries[i].2.get())
        } else {
            None
        }
    }

    /// Removal capabilities for all current entries, in store order.
    pub fn items(&self) -> (r: Vec<RcHashMapItem>)
        ensures
            r@.len() == self@.len(),
            forall|i: int| 0 <= i < self@.len() ==> (#[trigger] r@[i].stamp()) == self@[i].1,
    {
        let n = self.entries.len();
        let mut r: Vec<RcHashMapItem> = Vec::new();
        let mut i: usize = 0;
        while i < n
            invariant
                n == self@.len(),
                i <= n,
                r@.len() == i,
                forall|j: int| 0 <= j < i ==> (#[trigger] r@[j].stamp()) == self@[j].1,
            decreases n - i,
        {
            r.push(RcHashMapItem { stamp: self.entries[i].1 });
            i += 1;
        }
        r
    }
}

impl RcHashMapItem {
    /// Delete the entry this capability was issued for from `map`: the
    /// stamped entry leaves the store if it is still present, and the call
    /// is a harmless no-op if that entry was already removed or its key was
    /// overwritten since.
    pub fn remove<K: PartialEqSpec, V>(&self, map: &mut RcHashMapSignal<K, V>)
        requires
            old(map).wf(),
        ensures
            final(map).wf(),
            final(map)@ == spec_removed(old(map)@, self.stamp()),
    {
        proof {
            lemma_stamp_index(map@, self.stamp);
        }
        let n = map.entries.len();
        let mut i: usize = 0;
        while i < n
            invariant
                map.wf(),
                map == old(map),
                n == map@.len(),
                i <= n,
                0 <= stamp_index(map@, self.stamp) <= map@.len(),
                stamp_index(map@, self.stamp) < map@.len() ==> map@[stamp_index(
                    map@,
                    self.stamp,
                )].1 == self.stamp,
                forall|j: int| 0 <= j < stamp_index(map@, self.stamp) ==> map@[j].1 != self.stamp,
                forall|j: int| 0 <= j < i ==> map@[j].1 != self.stamp,
            decreases n - i,
        {
            if map.entries[i].1 == self.stamp {
                proof {
                    assert(map@[i as int].1 == self.stamp);
                    let si = stamp_index(map@, self.stamp);
                    assert_by_contradiction!(!(si < i), {
                        assert(map@[si].1 == self.stamp);
                    });
                    assert_by_contradiction!(!(si > i), {
                        assert(map@[i as int].1 != self.stamp);
                    });
                }
                let ghost s0 = map@;
                map.entries.remove(i);
                proof {
                    assert(map@ =~= s0.remove(i as int));
                }
                return ;
            }
            i += 1;
        }
        proof {
            let si = stamp_index(map@, self.stamp);
            assert_by_contradiction!(!(si < map@.len()), {
                assert(map@[si].1 == self.stamp);
                assert(map@[si].1 != self.stamp);
            });
        }
    }
}


/// Keyed overwrite: inserting under an existing key with a fresh stamp
/// replaces the entry in place, the capability issued for the replaced
/// entry becomes a no-op against the store, and the capability issued
/// for the new entry removes exactly that entry.
pub proof fn lemma_keyed_overwrite<K: PartialEqSpec, V>(
    s: Seq<(K, u64, V)>,
    key: K,
    stamp: u64,
    value: V,
)
    requires
        forall|j: int| 0 <= j < s.len() ==> (#[trigger] s[j].1) < stamp,
        forall|i: int, j: int| 0 <= i < j < s.len() ==> s[i].1 != s[j].1,
        key_index(s, key) < s.len(),
    ensures
        ({
            let i = key_index(s, key);
            let s2 = spec_inserted(s, key, stamp, value);
            &&& s2.len() == s.len()
            &&& s2[i] == (key, stamp, value)
            &&& spec_removed(s2, s[i].1) == s2
            &&& spec_removed(s2, stamp) == s2.remove(i)
        }),
{
    let i = key_index(s, key);
    let s2 = spec_inserted(s, key, stamp, value);
    lemma_key_index(s, key);
    assert(s2 == s.update(i, (key, stamp, value)));
    let old_stamp = s[i].1;
    lemma_stamp_index(s2, old_stamp);
    let si = stamp_index(s2, old_stamp);
    assert_by_contradiction!(!(si < s2.len()), {
        assert(s2[si].1 == old_stamp);
        if si == i {
            assert(s2[si].1 == stamp);
            assert(old_stamp < stamp);
        } else {
            assert(s2[si].1 == s[si].1);
            assert(s[si].1 != s[i].1);
        }
    });
    lemma_stamp_index(s2, stamp);
    let ni = stamp_index(s2, stamp);
    assert(s2[i].1 == stamp);
    assert_by_contradiction!(!(ni < i), {
        assert(s2[ni].1 == stamp);
        assert(s2[ni].1 == s[ni].1);
        assert(s[ni].1 < stamp);
    });
    assert_by_contradiction!(!(ni > i), {
        assert(s2[i as int].1 != stamp);
    });
}

} // verus!
