use vstd::prelude::*;
use crate::text::str_eq;

verus! {

/// A map from property names to their textual values, in insertion order,
/// where each name occurs at most once.
pub struct PropertyMap {
    entries: Vec<(String, String)>,
}

impl PropertyMap {
    /// Each name occurs at most once.
    pub closed spec fn wf(&self) -> bool {
        forall|i: int, j: int|
            0 <= i < j < self.entries@.len() ==> #[trigger] self.entries@[i].0@
                != #[trigger] self.entries@[j].0@
    }

    /// Whether some entry is named `k`.
    pub closed spec fn has_key(&self, k: Seq<char>) -> bool {
        exists|i: int| 0 <= i < self.entries@.len() && #[trigger] self.entries@[i].0@ == k
    }

    /// The value of the entry named `k` (meaningful when `has_key(k)`).
    pub closed spec fn value_of(&self, k: Seq<char>) -> Seq<char> {
        self.entries@[choose|i: int| 0 <= i < self.entries@.len() && #[trigger] self.entries@[i].0@ == k].1@
    }

    /// The names, in insertion order.
    pub closed spec fn key_seq(&self) -> Seq<Seq<char>> {
        Seq::new(self.entries@.len(), |i: int| self.entries@[i].0@)
    }
}

impl View for PropertyMap {
    type V = Map<Seq<char>, Seq<char>>;

    closed spec fn view(&self) -> Map<Seq<char>, Seq<char>> {
        Map::new(|k: Seq<char>| self.has_key(k), |k: Seq<char>| self.value_of(k))
    }
}

impl PropertyMap {
    /// An empty map.
    pub fn new() -> (m: PropertyMap)
        ensures
            m.wf(),
            m@ == Map::<Seq<char>, Seq<char>>::empty(),
    {
        let m = PropertyMap { entries: Vec::new() };
        assert(m@ =~= Map::<Seq<char>, Seq<char>>::empty());
        m
    }

    /// The number of names in the map.
    pub fn len(&self) -> (n: usize)
        requires
            self.wf(),
        ensures
            n == self@.dom().len(),
    {
        proof { self.lemma_len(); }
        self.entries.len()
    }

    proof fn lemma_len(&self)
        requires
            self.wf(),
        ensures
            self@.dom().finite(),
            self@.dom().len() == self.entries@.len(),
        decreases self.entries@.len(),
    {
        let ks = self.key_seq();
        assert(ks.no_duplicates());
        ks.unique_seq_to_set();
        assert(self@.dom() =~= ks.to_set()) by {
            assert forall|k: Seq<char>| self@.dom().contains(k) implies ks.to_set().contains(k) by {
                let i = choose|i: int| 0 <= i < self.entries@.len() && #[trigger] self.entries@[i].0@ == k;
                assert(ks[i] == k);
            }
            assert forall|k: Seq<char>| ks.to_set().contains(k) implies self@.dom().contains(k) by {
                let i = choose|i: int| 0 <= i < ks.len() && ks[i] == k;
                assert(self.entries@[i].0@ == k);
            }
        }
    }

    fn find(&self, key: &str) -> (r: Option<usize>)
        requires
            self.wf(),
        ensures
            match r {
                Some(i) => i < self.entries@.len() && self.entries@[i as int].0@ == key@,
                None => !self.has_key(key@),
            },
    {
        let mut i: usize = 0;
        while i < self.entries.len()
            invariant
                i <= self.entries@.len(),
                forall|j: int| 0 <= j < i ==> #[trigger] self.entries@[j].0@ != key@,
            decreases self.entries@.len() - i,
        {
            if str_eq(self.entries[i].0.as_str(), key) {
                return Some(i);
            }
            i = i + 1;
        }
        None
    }

    /// Sets the value of `key` (a new name goes last).
    pub fn insert(&mut self, key: String, value: String)
        requires
            old(self).wf(),
        ensures
            final(self).wf(),
            final(self)@ == old(self)@.insert(key@, value@),
    {
        let ghost k = key@;
        let ghost v = value@;
        match self.find(key.as_str()) {
            Some(i) => {
                let ghost before = *self;
                self.entries.set(i, (key, value));
                assert(self@ =~= before@.insert(k, v)) by {
                    assert forall|q: Seq<char>| #[trigger] self.has_key(q) == (before.has_key(q) || q == k) by {
                        if before.has_key(q) {
                            let j = choose|j: int| 0 <= j < before.entries@.len() && #[trigger] before.entries@[j].0@ == q;
                            assert(self.entries@[j].0@ == q);
                        }
                        if self.has_key(q) {
                            let j = choose|j: int| 0 <= j < self.entries@.len() && #[trigger] self.entries@[j].0@ == q;
                            if j != i {
                                assert(before.entries@[j].0@ == q);
                            }
                        }
                    }
                    assert forall|q: Seq<char>| self.has_key(q) implies #[trigger] self.value_of(q) == (if q == k { v } else { before.value_of(q) }) by {
                        let j = choose|j: int| 0 <= j < self.entries@.len() && #[trigger] self.entries@[j].0@ == q;
                        if q == k {
                            assert(j == i);
                        } else {
                            let j2 = choose|j2: int| 0 <= j2 < before.entries@.len() && #[trigger] before.entries@[j2].0@ == q;
                            assert(j2 != i);
                            assert(self.entries@[j2].0@ == q);
                            assert(j == j2);
                        }
                    }
                }
            },
            None => {
                let ghost before = *self;
                self.entries.push((key, value));
                let ghost n = before.entries@.len() as int;
                assert(self@ =~= before@.insert(k, v)) by {
                    assert(self.entries@[n].0@ == k);
                    assert forall|q: Seq<char>| #[trigger] self.has_key(q) == (before.has_key(q) || q == k) by {
                        if before.has_key(q) {
                            let j = choose|j: int| 0 <= j < before.entries@.len() && #[trigger] before.entries@[j].0@ == q;
                            assert(self.entries@[j].0@ == q);
                        }
                        if self.has_key(q) {
                            let j = choose|j: int| 0 <= j < self.entries@.len() && #[trigger] self.entries@[j].0@ == q;
                            if j != n {
                                assert(before.entries@[j].0@ == q);
                            }
                        }
                    }
                    assert forall|q: Seq<char>| self.has_key(q) implies #[trigger] self.value_of(q) == (if q == k { v } else { before.value_of(q) }) by {
                        let j = choose|j: int| 0 <= j < self.entries@.len() && #[trigger] self.entries@[j].0@ == q;
                        if q == k {
                            if j != n {
                                assert(before.entries@[j].0@ == q);
                            }
                        } else {
                            let j2 = choose|j2: int| 0 <= j2 < before.entries@.len() && #[trigger] before.entries@[j2].0@ == q;
                            assert(self.entries@[j2].0@ == q);
                            assert(j == j2);
                        }
                    }
                }
            },
        }
    }

    /// The value of `key`, if the map holds it.
    pub fn get(&self, key: &str) -> (r: Option<String>)
        requires
            self.wf(),
        ensures
            match r {
                Some(v) => self@.contains_key(key@) && v@ == self@[key@],
                None => !self@.contains_key(key@),
            },
    {
        match self.find(key) {
            Some(i) => {
                let ghost k = key@;
                proof {
                    let j = choose|j: int| 0 <= j < self.entries@.len() && #[trigger] self.entries@[j].0@ == k;
                    assert(j == i);
                }
                Some(self.entries[i].1.clone())
            },
            None => None,
        }
    }

    /// The (name, value) pairs, in insertion order.
    pub fn to_pairs(&self) -> (v: Vec<(String, String)>)
        requires
            self.wf(),
        ensures
            v.len() == self@.dom().len(),
            forall|i: int| 0 <= i < v.len() ==> #[trigger] self@.contains_key(v@[i].0@) && self@[v@[i].0@] == v@[i].1@,
    {
        proof { self.lemma_len(); }
        let mut v: Vec<(String, String)> = Vec::new();
        let mut i: usize = 0;
        while i < self.entries.len()
            invariant
                self.wf(),
                i <= self.entries@.len(),
                v@.len() == i,
                forall|j: int| 0 <= j < i ==> #[trigger] v@[j].0@ == self.entries@[j].0@ && v@[j].1@ == self.entries@[j].1@,
            decreases self.entries@.len() - i,
        {
            let k = self.entries[i].0.clone();
            let val = self.entries[i].1.clone();
            v.push((k, val));
            i = i + 1;
        }
        assert forall|i: int| 0 <= i < v.len() implies #[trigger] self@.contains_key(v@[i].0@) && self@[v@[i].0@] == v@[i].1@ by {
            let k = v@[i].0@;
            assert(self.entries@[i].0@ == k);
            let j = choose|j: int| 0 <= j < self.entries@.len() && #[trigger] self.entries@[j].0@ == k;
            assert(j == i);
        }
        v
    }
}

} // verus!
