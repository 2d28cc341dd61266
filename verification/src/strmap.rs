//! A map keyed by strings, kept as a list of entries with distinct keys.

use vstd::prelude::*;

use crate::text::str_eq;

verus! {

/// String-keyed map. Each key occurs at most once.
pub struct StrMap<V> {
    entries: Vec<(String, V)>,
}

impl<V> StrMap<V> {
    #[verifier::type_invariant]
    pub closed spec fn keys_distinct(self) -> bool {
        forall|i: int, j: int|
            0 <= i < self.entries.len() && 0 <= j < self.entries.len() && i != j
                ==> #[trigger] self.entries@[i].0@ != #[trigger] self.entries@[j].0@
    }

    /// Whether entry `i` carries key `k`.
    pub closed spec fn has_key_at(self, i: int, k: Seq<char>) -> bool {
        0 <= i < self.entries.len() && self.entries@[i].0@ == k
    }

    /// Number of stored entries.
    pub closed spec fn entry_count_spec(self) -> nat {
        self.entries.len() as nat
    }

    /// Key of entry `i`.
    pub closed spec fn key_at_spec(self, i: int) -> Seq<char> {
        self.entries@[i].0@
    }
}

impl<V: View> View for StrMap<V> {
    type V = Map<Seq<char>, V::V>;

    closed spec fn view(&self) -> Map<Seq<char>, V::V> {
        Map::new(
            |k: Seq<char>| exists|i: int| #[trigger] self.has_key_at(i, k),
            |k: Seq<char>| self.entries@[choose|i: int| #[trigger] self.has_key_at(i, k)].1@,
        )
    }
}

impl<V: View> StrMap<V> {
    /// Value of entry `i`, as a view.
    pub closed spec fn value_at_spec(self, i: int) -> V::V {
        self.entries@[i].1@
    }

    proof fn lemma_entry(self, i: int)
        requires
            self.keys_distinct(),
            0 <= i < self.entries.len(),
        ensures
            self@.contains_key(self.entries@[i].0@),
            self@[self.entries@[i].0@] == self.entries@[i].1@,
    {
        let k = self.entries@[i].0@;
        assert(self.has_key_at(i, k));
        let j = choose|j: int| #[trigger] self.has_key_at(j, k);
        assert(self.has_key_at(j, k));
        if j != i {
            assert(self.entries@[i].0@ != self.entries@[j].0@);
        }
    }

    /// Every key of the map is the key of some entry, and the other way round.
    pub proof fn lemma_entries(self)
        requires
            self.keys_distinct(),
        ensures
            forall|i: int|
                0 <= i < self.entry_count_spec() ==> #[trigger] self@.contains_key(
                    self.key_at_spec(i),
                ) && self@[self.key_at_spec(i)] == self.value_at_spec(i),
            forall|k: Seq<char>|
                #[trigger] self@.contains_key(k) ==> exists|i: int|
                    0 <= i < self.entry_count_spec() && self.key_at_spec(i) == k,
    {
        assert forall|i: int| 0 <= i < self.entry_count_spec() implies #[trigger] self@.contains_key(
            self.key_at_spec(i),
        ) && self@[self.key_at_spec(i)] == self.value_at_spec(i) by {
            self.lemma_entry(i);
        }
        assert forall|k: Seq<char>| #[trigger] self@.contains_key(k) implies exists|i: int|
            0 <= i < self.entry_count_spec() && self.key_at_spec(i) == k by {
            let i = choose|i: int| #[trigger] self.has_key_at(i, k);
            assert(self.has_key_at(i, k));
            assert(0 <= i < self.entry_count_spec() && self.key_at_spec(i) == k);
        }
    }

    pub fn new() -> (m: Self)
        ensures
            m@ == Map::<Seq<char>, V::V>::empty(),
            m.entry_count_spec() == 0,
    {
        let m = StrMap { entries: Vec::new() };
        assert(m@ =~= Map::<Seq<char>, V::V>::empty());
        m
    }

    fn find(&self, key: &str) -> (r: Option<usize>)
        ensures
            r matches Some(i) ==> i < self.entries.len() && self.entries@[i as int].0@ == key@,
            r is None ==> forall|i: int|
                0 <= i < self.entries.len() ==> self.entries@[i].0@ != key@,
    {
        let mut i: usize = 0;
        while i < self.entries.len()
            invariant
                i <= self.entries.len(),
                forall|j: int| 0 <= j < i ==> self.entries@[j].0@ != key@,
            decreases self.entries.len() - i,
        {
            if str_eq(self.entries[i].0.as_str(), key) {
                return Some(i);
            }
            i += 1;
        }
        None
    }

    pub fn contains_key(&self, key: &str) -> (r: bool)
        ensures
            r == self@.contains_key(key@),
    {
        proof {
            use_type_invariant(self);
        }
        match self.find(key) {
            Some(i) => {
                proof {
                    self.lemma_entry(i as int);
                }
                true
            },
            None => {
                assert(!self@.contains_key(key@)) by {
                    if self@.contains_key(key@) {
                        let j = choose|j: int| #[trigger] self.has_key_at(j, key@);
                        assert(self.has_key_at(j, key@));
                    }
                }
                false
            },
        }
    }

    pub fn get(&self, key: &str) -> (r: Option<&V>)
        ensures
            r is Some == self@.contains_key(key@),
            r matches Some(v) ==> self@[key@] == v@,
    {
        proof {
            use_type_invariant(self);
        }
        match self.find(key) {
            Some(i) => {
                proof {
                    self.lemma_entry(i as int);
                }
                Some(&self.entries[i].1)
            },
            None => {
                assert(!self@.contains_key(key@)) by {
                    if self@.contains_key(key@) {
                        let j = choose|j: int| #[trigger] self.has_key_at(j, key@);
                        assert(self.has_key_at(j, key@));
                    }
                }
                None
            },
        }
    }

    pub fn insert(&mut self, key: String, value: V)
        ensures
            final(self)@ == old(self)@.insert(key@, value@),
    {
        proof {
            use_type_invariant(&*self);
        }
        let ghost old_self = *self;
        let ghost k = key@;
        let ghost vv = value@;
        match self.find(key.as_str()) {
            Some(i) => {
                let mut entries: Vec<(String, V)> = Vec::new();
                std::mem::swap(&mut entries, &mut self.entries);
                entries.set(i, (key, value));
                self.entries = entries;
                proof {
                    let new_self = *self;
                    assert(new_self.keys_distinct()) by {
                        assert forall|a: int, b: int|
                            0 <= a < new_self.entries.len() && 0 <= b < new_self.entries.len()
                                && a != b implies #[trigger] new_self.entries@[a].0@
                            != #[trigger] new_self.entries@[b].0@ by {
                            assert(old_self.entries@[a].0@ != old_self.entries@[b].0@);
                        }
                    }
                    assert forall|q: Seq<char>| #[trigger]
                        new_self@.contains_key(q) <==> old_self@.insert(k, vv).contains_key(q) by {
                        if new_self@.contains_key(q) {
                            let j = choose|j: int| #[trigger] new_self.has_key_at(j, q);
                            assert(new_self.has_key_at(j, q));
                            if j != i {
                                assert(old_self.has_key_at(j, q));
                            }
                        }
                        if old_self@.contains_key(q) {
                            let j = choose|j: int| #[trigger] old_self.has_key_at(j, q);
                            assert(old_self.has_key_at(j, q));
                            assert(new_self.has_key_at(j, q));
                        }
                        if q == k {
                            assert(new_self.has_key_at(i as int, q));
                        }
                    }
                    assert forall|q: Seq<char>| #[trigger]
                        new_self@.contains_key(q) implies new_self@[q] == old_self@.insert(
                        k,
                        vv,
                    )[q] by {
                        let j = choose|j: int| #[trigger] new_self.has_key_at(j, q);
                        assert(new_self.has_key_at(j, q));
                        new_self.lemma_entry(j);
                        if j != i {
                            assert(old_self.has_key_at(j, q));
                            old_self.lemma_entry(j);
                        }
                    }
                    assert(new_self@ =~= old_self@.insert(k, vv));
                }
            },
            None => {
                let mut entries: Vec<(String, V)> = Vec::new();
                std::mem::swap(&mut entries, &mut self.entries);
                entries.push((key, value));
                self.entries = entries;
                proof {
                    let new_self = *self;
                    let n = old_self.entries.len() as int;
                    assert(new_self.keys_distinct()) by {
                        assert forall|a: int, b: int|
                            0 <= a < new_self.entries.len() && 0 <= b < new_self.entries.len()
                                && a != b implies #[trigger] new_self.entries@[a].0@
                            != #[trigger] new_self.entries@[b].0@ by {
                            if a < n && b < n {
                                assert(old_self.entries@[a].0@ != old_self.entries@[b].0@);
                            }
                        }
                    }
                    assert forall|q: Seq<char>| #[trigger]
                        new_self@.contains_key(q) <==> old_self@.insert(k, vv).contains_key(q) by {
                        if new_self@.contains_key(q) {
                            let j = choose|j: int| #[trigger] new_self.has_key_at(j, q);
                            assert(new_self.has_key_at(j, q));
                            if j != n {
                                assert(old_self.has_key_at(j, q));
                            }
                        }
                        if old_self@.contains_key(q) {
                            let j = choose|j: int| #[trigger] old_self.has_key_at(j, q);
                            assert(old_self.has_key_at(j, q));
                            assert(new_self.has_key_at(j, q));
                        }
                        if q == k {
                            assert(new_self.has_key_at(n, q));
                        }
                    }
                    assert forall|q: Seq<char>| #[trigger]
                        new_self@.contains_key(q) implies new_self@[q] == old_self@.insert(
                        k,
                        vv,
                    )[q] by {
                        let j = choose|j: int| #[trigger] new_self.has_key_at(j, q);
                        assert(new_self.has_key_at(j, q));
                        new_self.lemma_entry(j);
                        if j != n {
                            assert(old_self.has_key_at(j, q));
                            old_self.lemma_entry(j);
                        }
                    }
                    assert(new_self@ =~= old_self@.insert(k, vv));
                }
            },
        }
    }

    pub fn remove(&mut self, key: &str)
        ensures
            final(self)@ == old(self)@.remove(key@),
    {
        let _ = self.take(key);
    }

    /// Removes `key` and hands back its value.
    pub fn take(&mut self, key: &str) -> (r: Option<V>)
        ensures
            final(self)@ == old(self)@.remove(key@),
            r is Some == old(self)@.contains_key(key@),
            r matches Some(v) ==> v@ == old(self)@[key@],
    {
        proof {
            use_type_invariant(&*self);
        }
        let ghost old_self = *self;
        let ghost k = key@;
        match self.find(key) {
            Some(i) => {
                let mut entries: Vec<(String, V)> = Vec::new();
                std::mem::swap(&mut entries, &mut self.entries);
                let (_, taken) = entries.remove(i);
                self.entries = entries;
                proof {
                    old_self.lemma_entry(i as int);
                    let new_self = *self;
                    assert(new_self.keys_distinct()) by {
                        assert forall|a: int, b: int|
                            0 <= a < new_self.entries.len() && 0 <= b < new_self.entries.len()
                                && a != b implies #[trigger] new_self.entries@[a].0@
                            != #[trigger] new_self.entries@[b].0@ by {
                            let a0 = if a < i { a } else { a + 1 };
                            let b0 = if b < i { b } else { b + 1 };
                            assert(old_self.entries@[a0].0@ != old_self.entries@[b0].0@);
                        }
                    }
                    assert forall|q: Seq<char>| #[trigger]
                        new_self@.contains_key(q) <==> old_self@.remove(k).contains_key(q) by {
                        if new_self@.contains_key(q) {
                            let j = choose|j: int| #[trigger] new_self.has_key_at(j, q);
                            assert(new_self.has_key_at(j, q));
                            let j0 = if j < i { j } else { j + 1 };
                            assert(old_self.has_key_at(j0, q));
                            assert(old_self.entries@[j0].0@ != old_self.entries@[i as int].0@);
                        }
                        if old_self@.contains_key(q) && q != k {
                            let j = choose|j: int| #[trigger] old_self.has_key_at(j, q);
                            assert(old_self.has_key_at(j, q));
                            let j1 = if j < i { j } else { j - 1 };
                            assert(new_self.has_key_at(j1, q));
                        }
                    }
                    assert forall|q: Seq<char>| #[trigger]
                        new_self@.contains_key(q) implies new_self@[q] == old_self@.remove(k)[q] by {
                        let j = choose|j: int| #[trigger] new_self.has_key_at(j, q);
                        assert(new_self.has_key_at(j, q));
                        new_self.lemma_entry(j);
                        let j0 = if j < i { j } else { j + 1 };
                        assert(old_self.has_key_at(j0, q));
                        old_self.lemma_entry(j0);
                    }
                    assert(new_self@ =~= old_self@.remove(k));
                }
                Some(taken)
            },
            None => {
                proof {
                    assert(!old_self@.contains_key(k)) by {
                        if old_self@.contains_key(k) {
                            let j = choose|j: int| #[trigger] old_self.has_key_at(j, k);
                            assert(old_self.has_key_at(j, k));
                        }
                    }
                    assert(old_self@ =~= old_self@.remove(k));
                }
                None
            },
        }
    }

    /// The keys, each once, in entry order.
    pub fn keys(&self) -> (r: Vec<String>)
        ensures
            r@.len() == self.entry_count_spec(),
            forall|i: int| 0 <= i < r@.len() ==> #[trigger] r@[i]@ == self.key_at_spec(i),
            forall|i: int| 0 <= i < r@.len() ==> self@.contains_key(#[trigger] r@[i]@),
            forall|k: Seq<char>|
                #[trigger] self@.contains_key(k) ==> exists|i: int| 0 <= i < r@.len() && r@[i]@ == k,
            forall|i: int, j: int|
                0 <= i < r@.len() && 0 <= j < r@.len() && i != j ==> #[trigger] r@[i]@
                    != #[trigger] r@[j]@,
    {
        proof {
            use_type_invariant(self);
            self.lemma_entries();
        }
        let mut out: Vec<String> = Vec::new();
        let mut i: usize = 0;
        while i < self.entries.len()
            invariant
                i <= self.entries.len(),
                out@.len() == i,
                forall|j: int| 0 <= j < i ==> #[trigger] out@[j]@ == self.entries@[j].0@,
            decreases self.entries.len() - i,
        {
            out.push(self.entries[i].0.clone());
            i += 1;
        }
        proof {
            assert forall|k: Seq<char>| #[trigger] self@.contains_key(k) implies exists|i: int|
                0 <= i < out@.len() && out@[i]@ == k by {
                let i = choose|i: int| 0 <= i < self.entry_count_spec() && self.key_at_spec(i) == k;
                assert(out@[i]@ == k);
            }
            assert forall|i: int| 0 <= i < out@.len() implies self@.contains_key(#[trigger] out@[i]@) by {
                assert(out@[i]@ == self.key_at_spec(i));
            }
        }
        out
    }

    /// Number of entries; equal to the number of keys.
    pub fn entry_count(&self) -> (r: usize)
        ensures
            r == self.entry_count_spec(),
    {
        self.entries.len()
    }

    pub fn is_empty(&self) -> (r: bool)
        ensures
            r == (self@ == Map::<Seq<char>, V::V>::empty()),
    {
        proof {
            use_type_invariant(self);
        }
        if self.entries.len() == 0 {
            assert(self@ =~= Map::<Seq<char>, V::V>::empty());
            true
        } else {
            proof {
                self.lemma_entry(0);
                assert(!Map::<Seq<char>, V::V>::empty().contains_key(self.entries@[0].0@));
            }
            false
        }
    }

    /// Key and value of entry `i`.
    pub fn entry_at(&self, i: usize) -> (r: (&String, &V))
        requires
            i < self.entry_count_spec(),
        ensures
            r.0@ == self.key_at_spec(i as int),
            r.1@ == self.value_at_spec(i as int),
            self@.contains_key(r.0@),
            self@[r.0@] == r.1@,
    {
        proof {
            use_type_invariant(self);
            self.lemma_entry(i as int);
        }
        (&self.entries[i].0, &self.entries[i].1)
    }
}

impl StrMap<String> {
    /// A copy with the same entries.
    pub fn copy(&self) -> (r: Self)
        ensures
            r@ == self@,
    {
        proof {
            use_type_invariant(self);
        }
        let mut entries: Vec<(String, String)> = Vec::new();
        let mut i: usize = 0;
        while i < self.entries.len()
            invariant
                i <= self.entries.len(),
                entries@ == self.entries@.take(i as int),
            decreases self.entries.len() - i,
        {
            let k = self.entries[i].0.clone();
            let v = self.entries[i].1.clone();
            entries.push((k, v));
            assert(self.entries@.take(i + 1) =~= self.entries@.take(i as int).push(
                self.entries@[i as int],
            ));
            i += 1;
        }
        assert(self.entries@.take(self.entries.len() as int) =~= self.entries@);
        let r = StrMap { entries };
        proof {
            assert forall|q: Seq<char>| #[trigger] r@.contains_key(q) <==> self@.contains_key(q) by {
                if r@.contains_key(q) {
                    let j = choose|j: int| #[trigger] r.has_key_at(j, q);
                    assert(r.has_key_at(j, q));
                    assert(self.has_key_at(j, q));
                }
                if self@.contains_key(q) {
                    let j = choose|j: int| #[trigger] self.has_key_at(j, q);
                    assert(self.has_key_at(j, q));
                    assert(r.has_key_at(j, q));
                }
            }
            assert forall|q: Seq<char>| #[trigger] r@.contains_key(q) implies r@[q] == self@[q] by {
                let j = choose|j: int| #[trigger] r.has_key_at(j, q);
                assert(r.has_key_at(j, q));
                r.lemma_entry(j);
                self.lemma_entry(j);
            }
            assert(r@ =~= self@);
        }
        r
    }
}


/// No two pairs share a key.
pub open spec fn pairs_distinct(ps: Seq<(String, u32)>) -> bool {
    forall|i: int, j: int|
        0 <= i < ps.len() && 0 <= j < ps.len() && i != j ==> #[trigger] ps[i].0@ != #[trigger] ps[j].0@
}

/// The map a list of pairs with distinct keys describes.
pub open spec fn pairs_map(ps: Seq<(String, u32)>) -> Map<Seq<char>, u32> {
    Map::new(
        |k: Seq<char>| exists|i: int| 0 <= i < ps.len() && #[trigger] ps[i].0@ == k,
        |k: Seq<char>| ps[choose|i: int| 0 <= i < ps.len() && #[trigger] ps[i].0@ == k].1,
    )
}

impl StrMap<u32> {
    /// The entries as a list of pairs.
    pub fn pairs(&self) -> (r: Vec<(String, u32)>)
        ensures
            pairs_distinct(r@),
            pairs_map(r@) == self@,
    {
        proof {
            use_type_invariant(self);
        }
        let mut out: Vec<(String, u32)> = Vec::new();
        let mut i: usize = 0;
        while i < self.entries.len()
            invariant
                i <= self.entries.len(),
                out@ == self.entries@.take(i as int),
            decreases self.entries.len() - i,
        {
            let k = self.entries[i].0.clone();
            out.push((k, self.entries[i].1));
            assert(self.entries@.take(i + 1) =~= self.entries@.take(i as int).push(
                self.entries@[i as int],
            ));
            i += 1;
        }
        assert(self.entries@.take(self.entries.len() as int) =~= self.entries@);
        proof {
            let ps = out@;
            assert forall|k: Seq<char>| #[trigger] pairs_map(ps).contains_key(k) <==> self@.contains_key(
                k,
            ) by {
                if pairs_map(ps).contains_key(k) {
                    let j = choose|j: int| 0 <= j < ps.len() && #[trigger] ps[j].0@ == k;
                    assert(self.has_key_at(j, k));
                }
                if self@.contains_key(k) {
                    let j = choose|j: int| #[trigger] self.has_key_at(j, k);
                    assert(self.has_key_at(j, k));
                    assert(ps[j].0@ == k);
                }
            }
            assert forall|k: Seq<char>| #[trigger] pairs_map(ps).contains_key(k) implies pairs_map(
                ps,
            )[k] == self@[k] by {
                let j = choose|j: int| 0 <= j < ps.len() && #[trigger] ps[j].0@ == k;
                self.lemma_entry(j);
            }
            assert(pairs_map(ps) =~= self@);
        }
        out
    }
}

} // verus!
