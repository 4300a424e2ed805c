//! A finite map keyed by byte strings, kept as a list of distinct entries.

use vstd::prelude::*;

verus! {

/// Whether two byte slices are equal.
pub fn bytes_eq(a: &[u8], b: &[u8]) -> (r: bool)
    ensures
        r == (a@ == b@),
{
    if a.len() != b.len() {
        return false;
    }
    let n = a.len();
    let mut i: usize = 0;
    while i < n
        invariant
            i <= n,
            n == a@.len(),
            n == b@.len(),
            forall|j: int| 0 <= j < i ==> a@[j] == b@[j],
        decreases n - i,
    {
        if a[i] != b[i] {
            return false;
        }
        i = i + 1;
    }
    proof {
        assert(a@ =~= b@);
    }
    true
}

/// A finite map from byte strings to values.
pub struct ByteMap<V> {
    entries: Vec<(Vec<u8>, V)>,
}

impl<V> ByteMap<V> {
    /// No key occurs twice.
    #[verifier::type_invariant]
    closed spec fn keys_distinct(self) -> bool {
        forall|i: int, j: int|
            0 <= i < self.entries@.len() && 0 <= j < self.entries@.len() && i != j
                ==> self.entries@[i].0@ != self.entries@[j].0@
    }

    /// Whether entry `i` has key `k`.
    closed spec fn entry_has_key(self, i: int, k: Seq<u8>) -> bool {
        0 <= i < self.entries@.len() && self.entries@[i].0@ == k
    }

    /// The map held.
    pub closed spec fn view(self) -> Map<Seq<u8>, V> {
        Map::new(
            |k: Seq<u8>| exists|i: int| self.entry_has_key(i, k),
            |k: Seq<u8>| self.entries@[choose|i: int| self.entry_has_key(i, k)].1,
        )
    }

    /// The empty map.
    pub fn new() -> (r: Self)
        ensures
            r.view() == Map::<Seq<u8>, V>::empty(),
    {
        let r = ByteMap { entries: Vec::new() };
        assert(r.view() =~= Map::<Seq<u8>, V>::empty());
        r
    }

    /// The number of keys.
    pub fn len(&self) -> (r: usize)
        ensures
            r == self.view().dom().len(),
    {
        proof {
            use_type_invariant(self);
            self.lemma_dom_len();
        }
        self.entries.len()
    }

    proof fn lemma_dom_len(self)
        requires
            self.keys_distinct(),
        ensures
            self.view().dom().len() == self.entries@.len(),
            self.view().dom().finite(),
        decreases self.entries@.len(),
    {
        let keys = Seq::new(self.entries@.len(), |i: int| self.entries@[i].0@);
        assert(self.view().dom() =~= keys.to_set()) by {
            assert forall|k: Seq<u8>| self.view().dom().contains(k) implies keys.to_set().contains(k) by {
                let i = choose|i: int| self.entry_has_key(i, k);
                assert(keys[i] == k);
            }
            assert forall|k: Seq<u8>| keys.to_set().contains(k) implies self.view().dom().contains(k) by {
                let i = choose|i: int| 0 <= i < keys.len() && keys[i] == k;
                assert(self.entry_has_key(i, k));
            }
        }
        assert(keys.no_duplicates());
        keys.unique_seq_to_set();
    }

    /// The index of the entry with key `key`, if any.
    fn find(&self, key: &[u8]) -> (r: Option<usize>)
        ensures
            r matches Some(i) ==> self.entry_has_key(i as int, key@),
            r is None ==> forall|i: int| !self.entry_has_key(i, key@),
    {
        let n = self.entries.len();
        let mut i: usize = 0;
        while i < n
            invariant
                i <= n,
                n == self.entries@.len(),
                forall|j: int| 0 <= j < i ==> self.entries@[j].0@ != key@,
            decreases n - i,
        {
            if bytes_eq(self.entries[i].0.as_slice(), key) {
                return Some(i);
            }
            i = i + 1;
        }
        None
    }

    proof fn lemma_lookup(self, i: int, k: Seq<u8>)
        requires
            self.keys_distinct(),
            self.entry_has_key(i, k),
        ensures
            self.view().contains_key(k),
            self.view()[k] == self.entries@[i].1,
    {
        let c = choose|j: int| self.entry_has_key(j, k);
        assert(self.entry_has_key(c, k));
    }

    /// Whether `key` is in the map.
    pub fn contains_key(&self, key: &[u8]) -> (r: bool)
        ensures
            r == self.view().contains_key(key@),
    {
        self.find(key).is_some()
    }

    /// Removes every key.
    pub fn clear(&mut self)
        ensures
            final(self).view() == Map::<Seq<u8>, V>::empty(),
    {
        self.entries = Vec::new();
        assert(self.view() =~= Map::<Seq<u8>, V>::empty());
    }
}

impl<V: Copy> ByteMap<V> {
    /// A copy of the map.
    pub fn copy(&self) -> (r: Self)
        ensures
            r.view() == self.view(),
    {
        proof {
            use_type_invariant(self);
        }
        let n = self.entries.len();
        let mut entries: Vec<(Vec<u8>, V)> = Vec::new();
        let mut i: usize = 0;
        while i < n
            invariant
                i <= n,
                n == self.entries@.len(),
                entries@.len() == i,
                forall|j: int| 0 <= j < i ==> #[trigger] entries@[j].0@ == self.entries@[j].0@ && entries@[j].1 == self.entries@[j].1,
            decreases n - i,
        {
            let key = vstd::slice::slice_to_vec(self.entries[i].0.as_slice());
            let ghost before = entries@;
            entries.push((key, self.entries[i].1));
            proof {
                assert(entries@[i as int].0@ == self.entries@[i as int].0@);
                assert forall|j: int| 0 <= j < i + 1 implies #[trigger] entries@[j].0@ == self.entries@[j].0@ && entries@[j].1 == self.entries@[j].1 by {
                    if j < i {
                        assert(entries@[j] == before[j]);
                    }
                }
            }
            i = i + 1;
        }
        proof {
            assert forall|a: int, b: int|
                0 <= a < entries@.len() && 0 <= b < entries@.len() && a != b
                    implies entries@[a].0@ != entries@[b].0@ by {
                assert(entries@[a].0@ == self.entries@[a].0@);
                assert(entries@[b].0@ == self.entries@[b].0@);
            }
        }
        let r = ByteMap { entries };
        proof {
            assert forall|i: int, k: Seq<u8>| #[trigger] r.entry_has_key(i, k) <==> self.entry_has_key(i, k) by {
                if 0 <= i < n {
                    assert(r.entries@[i].0@ == self.entries@[i].0@);
                }
            }
            assert forall|k: Seq<u8>| r.view().dom().contains(k) implies self.view().contains_key(k) && r.view()[k] == self.view()[k] by {
                let i = choose|i: int| r.entry_has_key(i, k);
                r.lemma_lookup(i, k);
                self.lemma_lookup(i, k);
            }
            assert forall|k: Seq<u8>| self.view().dom().contains(k) implies r.view().contains_key(k) by {
                let i = choose|i: int| self.entry_has_key(i, k);
                assert(r.entry_has_key(i, k));
                r.lemma_lookup(i, k);
            }
            assert(r.view() =~= self.view());
        }
        r
    }

    /// The value at `key`, if any.
    pub fn get(&self, key: &[u8]) -> (r: Option<V>)
        ensures
            r == (if self.view().contains_key(key@) { Some(self.view()[key@]) } else { None }),
    {
        proof {
            use_type_invariant(self);
        }
        match self.find(key) {
            Some(i) => {
                proof {
                    self.lemma_lookup(i as int, key@);
                }
                Some(self.entries[i].1)
            },
            None => None,
        }
    }

    /// Sets `key` to `value`.
    pub fn insert(&mut self, key: Vec<u8>, value: V)
        ensures
            final(self).view() == old(self).view().insert(key@, value),
    {
        proof {
            use_type_invariant(&*self);
        }
        let ghost old_map = self.view();
        let ghost k = key@;
        match self.find(key.as_slice()) {
            Some(i) => {
                let ghost before = *self;
                let mut entries = Vec::new();
                std::mem::swap(&mut entries, &mut self.entries);
                entries.set(i, (key, value));
                proof {
                    assert forall|a: int, b: int|
                        0 <= a < entries@.len() && 0 <= b < entries@.len() && a != b
                            implies entries@[a].0@ != entries@[b].0@ by {
                        assert(before.entries@[a].0@ != before.entries@[b].0@);
                    }
                }
                self.entries = entries;
                proof {
                    assert forall|a: int, b: int|
                        0 <= a < self.entries@.len() && 0 <= b < self.entries@.len() && a != b
                            implies self.entries@[a].0@ != self.entries@[b].0@ by {
                        assert(before.entries@[a].0@ != before.entries@[b].0@);
                    }
                }
                proof {
                    assert forall|kk: Seq<u8>| #![auto] self.view().dom().contains(kk) == old_map.insert(k, value).dom().contains(kk) by {
                        if kk != k {
                            if self.view().dom().contains(kk) {
                                let j = choose|j: int| self.entry_has_key(j, kk);
                                assert(before.entry_has_key(j, kk));
                            }
                            if old_map.dom().contains(kk) {
                                let j = choose|j: int| before.entry_has_key(j, kk);
                                assert(self.entry_has_key(j, kk));
                            }
                        } else {
                            assert(self.entry_has_key(i as int, k));
                        }
                    }
                    assert forall|kk: Seq<u8>| self.view().dom().contains(kk) implies self.view()[kk] == old_map.insert(k, value)[kk] by {
                        let j = choose|j: int| self.entry_has_key(j, kk);
                        self.lemma_lookup(j, kk);
                        if kk != k {
                            assert(before.entry_has_key(j, kk));
                            before.lemma_lookup(j, kk);
                        } else {
                            self.lemma_lookup(i as int, k);
                        }
                    }
                    assert(self.view() =~= old_map.insert(k, value));
                }
            },
            None => {
                let ghost before = *self;
                let mut entries = Vec::new();
                std::mem::swap(&mut entries, &mut self.entries);
                entries.push((key, value));
                proof {
                    let n = before.entries@.len();
                    assert forall|a: int, b: int|
                        0 <= a < entries@.len() && 0 <= b < entries@.len() && a != b
                            implies entries@[a].0@ != entries@[b].0@ by {
                        if a < n && b < n {
                            assert(before.entries@[a].0@ != before.entries@[b].0@);
                        } else if a == n {
                            assert(!before.entry_has_key(b, k));
                        } else {
                            assert(!before.entry_has_key(a, k));
                        }
                    }
                }
                self.entries = entries;
                proof {
                    let n = before.entries@.len();
                    assert forall|a: int, b: int|
                        0 <= a < self.entries@.len() && 0 <= b < self.entries@.len() && a != b
                            implies self.entries@[a].0@ != self.entries@[b].0@ by {
                        if a < n && b < n {
                            assert(before.entries@[a].0@ != before.entries@[b].0@);
                        } else if a == n {
                            assert(!before.entry_has_key(b, k));
                        } else {
                            assert(!before.entry_has_key(a, k));
                        }
                    }
                    assert forall|kk: Seq<u8>| #![auto] self.view().dom().contains(kk) == old_map.insert(k, value).dom().contains(kk) by {
                        if kk != k {
                            if self.view().dom().contains(kk) {
                                let j = choose|j: int| self.entry_has_key(j, kk);
                                assert(before.entry_has_key(j, kk));
                            }
                            if old_map.dom().contains(kk) {
                                let j = choose|j: int| before.entry_has_key(j, kk);
                                assert(self.entry_has_key(j, kk));
                            }
                        } else {
                            assert(self.entry_has_key(n as int, k));
                        }
                    }
                    assert forall|kk: Seq<u8>| self.view().dom().contains(kk) implies self.view()[kk] == old_map.insert(k, value)[kk] by {
                        let j = choose|j: int| self.entry_has_key(j, kk);
                        self.lemma_lookup(j, kk);
                        if kk != k {
                            assert(before.entry_has_key(j, kk));
                            before.lemma_lookup(j, kk);
                        } else {
                            self.lemma_lookup(n as int, k);
                        }
                    }
                    assert(self.view() =~= old_map.insert(k, value));
                }
            },
        }
    }

    /// Removes `key`.
    pub fn remove(&mut self, key: &[u8])
        ensures
            final(self).view() == old(self).view().remove(key@),
    {
        proof {
            use_type_invariant(&*self);
        }
        let ghost old_map = self.view();
        let ghost k = key@;
        match self.find(key) {
            Some(i) => {
                let ghost before = *self;
                let mut entries = Vec::new();
                std::mem::swap(&mut entries, &mut self.entries);
                let _ = entries.remove(i);
                proof {
                    assert forall|j: int| 0 <= j < entries@.len() implies #[trigger] entries@[j] == before.entries@[if j < i { j } else { j + 1 }] by {}
                    assert forall|a: int, b: int|
                        0 <= a < entries@.len() && 0 <= b < entries@.len() && a != b
                            implies entries@[a].0@ != entries@[b].0@ by {
                        let a2 = if a < i { a } else { a + 1 };
                        let b2 = if b < i { b } else { b + 1 };
                        assert(entries@[a] == before.entries@[a2]);
                        assert(entries@[b] == before.entries@[b2]);
                        assert(before.entries@[a2].0@ != before.entries@[b2].0@);
                    }
                }
                self.entries = entries;
                proof {
                    let n = before.entries@.len();
                    assert forall|j: int| 0 <= j < self.entries@.len() implies #[trigger] self.entries@[j] == before.entries@[if j < i { j } else { j + 1 }] by {}
                    assert forall|a: int, b: int|
                        0 <= a < self.entries@.len() && 0 <= b < self.entries@.len() && a != b
                            implies self.entries@[a].0@ != self.entries@[b].0@ by {
                        let a2 = if a < i { a } else { a + 1 };
                        let b2 = if b < i { b } else { b + 1 };
                        assert(self.entries@[a] == before.entries@[a2]);
                        assert(self.entries@[b] == before.entries@[b2]);
                        assert(before.entries@[a2].0@ != before.entries@[b2].0@);
                    }
                    assert forall|kk: Seq<u8>| #![auto] self.view().dom().contains(kk) == old_map.remove(k).dom().contains(kk) by {
                        if self.view().dom().contains(kk) {
                            let j = choose|j: int| self.entry_has_key(j, kk);
                            let j2 = if j < i { j } else { j + 1 };
                            assert(self.entries@[j] == before.entries@[j2]);
                            assert(before.entry_has_key(j2, kk));
                            assert(j2 != i);
                        }
                        if old_map.dom().contains(kk) && kk != k {
                            let j = choose|j: int| before.entry_has_key(j, kk);
                            assert(j != i);
                            let j1 = if j < i { j } else { j - 1 };
                            assert(self.entries@[j1] == before.entries@[j]);
                            assert(self.entry_has_key(j1, kk));
                        }
                    }
                    assert forall|kk: Seq<u8>| self.view().dom().contains(kk) implies self.view()[kk] == old_map.remove(k)[kk] by {
                        let j = choose|j: int| self.entry_has_key(j, kk);
                        self.lemma_lookup(j, kk);
                        let j2 = if j < i { j } else { j + 1 };
                        assert(self.entries@[j] == before.entries@[j2]);
                        assert(before.entry_has_key(j2, kk));
                        before.lemma_lookup(j2, kk);
                    }
                    assert(self.view() =~= old_map.remove(k));
                }
            },
            None => {
                proof {
                    assert(self.view() =~= old_map.remove(k));
                }
            },
        }
    }
}

} // verus!
