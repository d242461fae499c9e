//! Keyed storage used by every pallet: a finite map kept as a list of
//! distinct keys with their values, viewed as a mathematical `Map`.
use vstd::prelude::*;

verus! {

/// A key that can be compared for equality at run time, with the
/// comparison tied to spec equality.
pub trait MapKey: Sized {
    fn key_eq(&self, other: &Self) -> (r: bool)
        ensures
            r == (*self == *other),
    ;
}

impl MapKey for u32 {
    fn key_eq(&self, other: &Self) -> (r: bool) {
        *self == *other
    }
}

impl MapKey for u64 {
    fn key_eq(&self, other: &Self) -> (r: bool) {
        *self == *other
    }
}

impl MapKey for [u8; 32] {
    fn key_eq(&self, other: &Self) -> (r: bool) {
        broadcast use vstd::array::group_array_axioms;

        let mut i: usize = 0;
        while i < 32
            invariant
                i <= 32,
                forall|j: int| 0 <= j < i ==> self[j] == other[j],
            decreases 32 - i,
        {
            if self[i] != other[i] {
                assert(self@[i as int] != other@[i as int]);
                return false;
            }
            i = i + 1;
        }
        assert(*self =~= *other);
        true
    }
}

impl<A: MapKey, B: MapKey> MapKey for (A, B) {
    fn key_eq(&self, other: &Self) -> (r: bool) {
        self.0.key_eq(&other.0) && self.1.key_eq(&other.1)
    }
}

/// A finite map from keys to values.
#[verifier::reject_recursive_types(K)]
pub struct KeyMap<K, V> {
    entries: Vec<(K, V)>,
    contents: Ghost<Map<K, V>>,
}

impl<K, V> View for KeyMap<K, V> {
    type V = Map<K, V>;

    closed spec fn view(&self) -> Map<K, V> {
        self.contents@
    }
}

/// The value stored under `k`, or `default` when `k` is absent (the reading
/// of a storage item that has a default value).
pub open spec fn value_or<K, V>(m: Map<K, V>, k: K, default: V) -> V {
    if m.contains_key(k) {
        m[k]
    } else {
        default
    }
}

impl<K: MapKey, V> KeyMap<K, V> {
    /// The entries hold each key once, and agree with the view.
    pub closed spec fn wf(&self) -> bool {
        &&& forall|i: int|
            0 <= i < self.entries@.len() ==> #[trigger] self.contents@.contains_key(
                self.entries@[i].0,
            ) && self.contents@[self.entries@[i].0] == self.entries@[i].1
        &&& forall|k: K|
            #[trigger] self.contents@.contains_key(k) ==> exists|i: int|
                0 <= i < self.entries@.len() && self.entries@[i].0 == k
        &&& forall|i: int, j: int|
            0 <= i < j < self.entries@.len() ==> self.entries@[i].0 != self.entries@[j].0
    }

    pub fn new() -> (m: Self)
        ensures
            m.wf(),
            m@ == Map::<K, V>::empty(),
    {
        KeyMap { entries: Vec::new(), contents: Ghost(Map::empty()) }
    }

    fn find(&self, k: &K) -> (r: Option<usize>)
        requires
            self.wf(),
        ensures
            match r {
                Some(i) => i < self.entries@.len() && self.entries@[i as int].0 == *k,
                None => !self@.contains_key(*k),
            },
    {
        let mut i: usize = 0;
        while i < self.entries.len()
            invariant
                self.wf(),
                i <= self.entries@.len(),
                forall|j: int| 0 <= j < i ==> self.entries@[j].0 != *k,
            decreases self.entries@.len() - i,
        {
            if self.entries[i].0.key_eq(k) {
                return Some(i);
            }
            i = i + 1;
        }
        proof {
            if self@.contains_key(*k) {
                let j = choose|j: int| 0 <= j < self.entries@.len() && self.entries@[j].0 == *k;
                assert(self.entries@[j].0 != *k);
            }
        }
        None
    }

    pub fn contains_key(&self, k: &K) -> (r: bool)
        requires
            self.wf(),
        ensures
            r == self@.contains_key(*k),
    {
        match self.find(k) {
            Some(i) => {
                assert(self.contents@.contains_key(self.entries@[i as int].0));
                true
            },
            None => false,
        }
    }

    pub fn get(&self, k: &K) -> (r: Option<&V>)
        requires
            self.wf(),
        ensures
            match r {
                Some(v) => self@.contains_key(*k) && *v == self@[*k],
                None => !self@.contains_key(*k),
            },
    {
        match self.find(k) {
            Some(i) => {
                assert(self.contents@.contains_key(self.entries@[i as int].0));
                Some(&self.entries[i].1)
            },
            None => None,
        }
    }

    pub fn insert(&mut self, k: K, v: V)
        requires
            old(self).wf(),
        ensures
            final(self).wf(),
            final(self)@ == old(self)@.insert(k, v),
    {
        let ghost old_entries = self.entries@;
        let ghost new_map = self.contents@.insert(k, v);
        match self.find(&k) {
            Some(i) => {
                self.entries[i] = (k, v);
                self.contents = Ghost(new_map);
                assert(self.entries@ == old_entries.update(i as int, (k, v)));
                assert forall|j: int| 0 <= j < self.entries@.len() implies
                    #[trigger] self.contents@.contains_key(self.entries@[j].0)
                    && self.contents@[self.entries@[j].0] == self.entries@[j].1 by {
                    if j != i {
                        assert(self.entries@[j] == old_entries[j]);
                        assert(old(self).contents@.contains_key(old_entries[j].0));
                        assert(old_entries[j].0 != k) by {
                            if j < i {
                                assert(old_entries[j].0 != old_entries[i as int].0);
                            } else {
                                assert(old_entries[i as int].0 != old_entries[j].0);
                            }
                        }
                    }
                }
                assert forall|kk: K| #[trigger] self.contents@.contains_key(kk) implies exists|
                    j: int,
                | 0 <= j < self.entries@.len() && self.entries@[j].0 == kk by {
                    if kk == k {
                        assert(self.entries@[i as int].0 == kk);
                    } else {
                        assert(old(self).contents@.contains_key(kk));
                        let j = choose|j: int|
                            0 <= j < old_entries.len() && old_entries[j].0 == kk;
                        assert(self.entries@[j].0 == kk);
                    }
                }
            },
            None => {
                self.entries.push((k, v));
                self.contents = Ghost(new_map);
                let ghost n: int = old_entries.len() as int;
                assert forall|j: int| 0 <= j < self.entries@.len() implies
                    #[trigger] self.contents@.contains_key(self.entries@[j].0)
                    && self.contents@[self.entries@[j].0] == self.entries@[j].1 by {
                    if j < n {
                        assert(old(self).contents@.contains_key(old_entries[j].0));
                    }
                }
                assert forall|kk: K| #[trigger] self.contents@.contains_key(kk) implies exists|
                    j: int,
                | 0 <= j < self.entries@.len() && self.entries@[j].0 == kk by {
                    if kk == k {
                        assert(self.entries@[n].0 == kk);
                    } else {
                        assert(old(self).contents@.contains_key(kk));
                        let j = choose|j: int|
                            0 <= j < old_entries.len() && old_entries[j].0 == kk;
                        assert(self.entries@[j].0 == kk);
                    }
                }
                assert forall|a: int, b: int|
                    0 <= a < b < self.entries@.len() implies self.entries@[a].0
                    != self.entries@[b].0 by {
                    if b == n {
                        assert(old(self).contents@.contains_key(old_entries[a].0));
                    }
                }
            },
        }
    }

    /// Removes `k`, handing back the value it held.
    pub fn remove(&mut self, k: &K) -> (r: Option<V>)
        requires
            old(self).wf(),
        ensures
            final(self).wf(),
            final(self)@ == old(self)@.remove(*k),
            match r {
                Some(v) => old(self)@.contains_key(*k) && v == old(self)@[*k],
                None => !old(self)@.contains_key(*k),
            },
    {
        let ghost old_entries = self.entries@;
        match self.find(k) {
            Some(i) => {
                assert(old(self).contents@.contains_key(old_entries[i as int].0));
                let ghost new_map = self.contents@.remove(*k);
                let e = self.entries.remove(i);
                self.contents = Ghost(new_map);
                assert forall|j: int| 0 <= j < self.entries@.len() implies
                    #[trigger] self.contents@.contains_key(self.entries@[j].0)
                    && self.contents@[self.entries@[j].0] == self.entries@[j].1 by {
                    let oj = if j < i { j } else { j + 1 };
                    assert(self.entries@[j] == old_entries[oj]);
                    assert(old(self).contents@.contains_key(old_entries[oj].0));
                    if oj < i {
                        assert(old_entries[oj].0 != old_entries[i as int].0);
                    } else {
                        assert(old_entries[i as int].0 != old_entries[oj].0);
                    }
                }
                assert forall|kk: K| #[trigger] self.contents@.contains_key(kk) implies exists|
                    j: int,
                | 0 <= j < self.entries@.len() && self.entries@[j].0 == kk by {
                    assert(old(self).contents@.contains_key(kk));
                    let oj = choose|j: int|
                        0 <= j < old_entries.len() && old_entries[j].0 == kk;
                    if oj < i {
                        assert(self.entries@[oj].0 == kk);
                    } else {
                        assert(oj != i);
                        assert(self.entries@[oj - 1].0 == kk);
                    }
                }
                assert forall|a: int, b: int|
                    0 <= a < b < self.entries@.len() implies self.entries@[a].0
                    != self.entries@[b].0 by {
                    let oa = if a < i { a } else { a + 1 };
                    let ob = if b < i { b } else { b + 1 };
                    assert(self.entries@[a] == old_entries[oa]);
                    assert(self.entries@[b] == old_entries[ob]);
                }
                Some(e.1)
            },
            None => {
                assert(self.contents@.remove(*k) =~= self.contents@);
                None
            },
        }
    }
}

impl<K: MapKey, V: Copy> KeyMap<K, V> {
    /// The value under `k`, or `default` when `k` is absent.
    pub fn get_or(&self, k: &K, default: V) -> (r: V)
        requires
            self.wf(),
        ensures
            r == value_or(self@, *k, default),
    {
        match self.get(k) {
            Some(v) => *v,
            None => default,
        }
    }
}

} // verus!
