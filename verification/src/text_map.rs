//! A finite map keyed by text, kept as a list of entries with distinct keys.
//! It holds the wizard's field errors and the monitor's last known service
//! states.

use vstd::prelude::*;
use crate::text::{chars_of, chars_start_with, starts_with};

verus! {

/// A map from text keys to values.
pub struct TextMap<V> {
    entries: Vec<(String, V)>,
}

impl<V: View> TextMap<V> {
    /// The keys of the entries, in entry order.
    pub closed spec fn keys(&self) -> Seq<Seq<char>> {
        self.entries@.map_values(|e: (String, V)| e.0@)
    }

    /// No key occurs twice.
    pub closed spec fn wf(&self) -> bool {
        self.keys().no_duplicates()
    }

    /// The map that the entries stand for.
    pub closed spec fn as_map(&self) -> Map<Seq<char>, V::V> {
        Map::new(
            |k: Seq<char>| self.keys().contains(k),
            |k: Seq<char>| self.entries@[self.keys().index_of(k)].1@,
        )
    }

    proof fn lemma_at(&self, i: int)
        requires
            self.wf(),
            0 <= i < self.entries@.len(),
        ensures
            self.keys()[i] == self.entries@[i].0@,
            self.as_map().contains_key(self.entries@[i].0@),
            self.as_map()[self.entries@[i].0@] == self.entries@[i].1@,
    {
        let k = self.entries@[i].0@;
        assert(self.keys()[i] == k);
        assert(self.keys().contains(k));
        let j = self.keys().index_of(k);
        assert(self.keys()[j] == k);
        assert(j == i);
    }

    proof fn lemma_dom_finite(&self)
        requires
            self.wf(),
        ensures
            self.as_map().dom() == self.keys().to_set(),
            self.as_map().dom().finite(),
            self.as_map().dom().len() == self.entries@.len(),
    {
        assert(self.as_map().dom() =~= self.keys().to_set());
        self.keys().unique_seq_to_set();
        vstd::seq_lib::seq_to_set_is_finite(self.keys());
    }

    /// An empty map.
    pub fn new() -> (m: Self)
        ensures
            m.wf(),
            m@ == Map::<Seq<char>, V::V>::empty(),
    {
        let m = TextMap { entries: Vec::new() };
        assert(m.keys() =~= Seq::<Seq<char>>::empty());
        assert(m@ =~= Map::<Seq<char>, V::V>::empty());
        m
    }

    /// The position of the entry with key `k`, if any.
    fn find(&self, k: &[char]) -> (r: Option<usize>)
        ensures
            match r {
                Some(i) => i < self.entries@.len() && self.keys()[i as int] == k@,
                None => !self.keys().contains(k@),
            },
    {
        let mut i: usize = 0;
        while i < self.entries.len()
            invariant
                i <= self.entries@.len(),
                forall|j: int| 0 <= j < i ==> self.keys()[j] != k@,
            decreases self.entries@.len() - i,
        {
            let ek = chars_of(self.entries[i].0.as_str());
            if crate::text::chars_eq(ek.as_slice(), k) {
                return Some(i);
            }
            i = i + 1;
        }
        None
    }

    /// The number of entries.
    pub fn len(&self) -> (n: usize)
        requires
            self.wf(),
        ensures
            n == self@.len(),
    {
        proof {
            self.lemma_dom_finite();
        }
        self.entries.len()
    }

    /// Whether the map is empty.
    pub fn is_empty(&self) -> (b: bool)
        requires
            self.wf(),
        ensures
            b == (self@.len() == 0),
    {
        self.len() == 0
    }

    /// Whether `k` has an entry.
    pub fn contains_key(&self, k: &str) -> (b: bool)
        requires
            self.wf(),
        ensures
            b == self@.contains_key(k@),
    {
        let kc = chars_of(k);
        self.find(kc.as_slice()).is_some()
    }

    /// The value at `k`, if any.
    pub fn get(&self, k: &str) -> (r: Option<&V>)
        requires
            self.wf(),
        ensures
            match r {
                Some(v) => self@.contains_key(k@) && v@ == self@[k@],
                None => !self@.contains_key(k@),
            },
    {
        let kc = chars_of(k);
        match self.find(kc.as_slice()) {
            Some(i) => {
                proof {
                    self.lemma_at(i as int);
                }
                Some(&self.entries[i].1)
            },
            None => None,
        }
    }

    /// Sets the value at `k`, replacing any earlier one.
    pub fn insert(&mut self, k: String, v: V)
        requires
            old(self).wf(),
        ensures
            final(self).wf(),
            final(self)@ == old(self)@.insert(k@, v@),
    {
        let kc = chars_of(k.as_str());
        let ghost old_map = self@;
        let ghost kv = k@;
        let ghost vv = v@;
        match self.find(kc.as_slice()) {
            Some(i) => {
                let ghost old_entries = self.entries@;
                self.entries.set(i, (k, v));
                assert(self.keys() =~= old(self).keys());
                proof {
                    assert forall|key: Seq<char>| #[trigger]
                        self@.contains_key(key) implies old_map.insert(kv, vv).contains_key(key)
                        && self@[key] == old_map.insert(kv, vv)[key] by {
                        let j = self.keys().index_of(key);
                        self.lemma_at(j);
                        if j != i {
                            old(self).lemma_at(j);
                        }
                    }
                    assert forall|key: Seq<char>| #[trigger]
                        old_map.insert(kv, vv).contains_key(key) implies self@.contains_key(key) by {
                        if key != kv {
                            let j = old(self).keys().index_of(key);
                            assert(self.keys()[j] == key);
                        } else {
                            assert(self.keys()[i as int] == key);
                        }
                    }
                    assert(self@ =~= old_map.insert(kv, vv));
                }
            },
            None => {
                self.entries.push((k, v));
                proof {
                    assert(self.keys() =~= old(self).keys().push(kv));
                    assert forall|a: int, b: int|
                        0 <= a < self.keys().len() && 0 <= b < self.keys().len() && a != b implies
                        self.keys()[a] != self.keys()[b] by {
                        if a < old(self).keys().len() && b < old(self).keys().len() {
                        } else if a == old(self).keys().len() {
                            assert(old(self).keys()[b] == self.keys()[b]);
                        } else {
                            assert(old(self).keys()[a] == self.keys()[a]);
                        }
                    }
                    let last = (self.entries@.len() - 1) as int;
                    assert forall|key: Seq<char>| #[trigger]
                        self@.contains_key(key) implies old_map.insert(kv, vv).contains_key(key)
                        && self@[key] == old_map.insert(kv, vv)[key] by {
                        let j = self.keys().index_of(key);
                        self.lemma_at(j);
                        if j != last {
                            old(self).lemma_at(j);
                        }
                    }
                    assert forall|key: Seq<char>| #[trigger]
                        old_map.insert(kv, vv).contains_key(key) implies self@.contains_key(key) by {
                        if key != kv {
                            let j = old(self).keys().index_of(key);
                            assert(self.keys()[j] == key);
                        } else {
                            assert(self.keys()[last] == key);
                        }
                    }
                    assert(self@ =~= old_map.insert(kv, vv));
                }
            },
        }
    }

    /// Removes the entry at position `i`.
    fn remove_at(&mut self, i: usize)
        requires
            old(self).wf(),
            i < old(self).entries@.len(),
        ensures
            final(self).wf(),
            final(self)@ == old(self)@.remove(old(self).keys()[i as int]),
            final(self).entries@.len() == old(self).entries@.len() - 1,
            forall|j: int|
                0 <= j < i ==> #[trigger] final(self).keys()[j] == old(self).keys()[j],
    {
        let ghost old_map = self@;
        let ghost ok = old(self).keys();
        let ghost kv = ok[i as int];
        let ghost n = ok.len();
        let _ = self.entries.swap_remove(i);
        proof {
            let nk = self.keys();
            assert(nk =~= ok.update(i as int, ok.last()).drop_last());
            assert forall|a: int, b: int|
                0 <= a < nk.len() && 0 <= b < nk.len() && a != b implies nk[a] != nk[b] by {
                let oa = if a == i {
                    n - 1
                } else {
                    a
                };
                let ob = if b == i {
                    n - 1
                } else {
                    b
                };
                assert(nk[a] == ok[oa]);
                assert(nk[b] == ok[ob]);
            }
            assert forall|key: Seq<char>| #[trigger]
                self@.contains_key(key) implies old_map.remove(kv).contains_key(key) && self@[key]
                == old_map.remove(kv)[key] by {
                let j = self.keys().index_of(key);
                self.lemma_at(j);
                let oj = if j == i {
                    n - 1
                } else {
                    j
                };
                assert(self.entries@[j] == old(self).entries@[oj]);
                old(self).lemma_at(oj);
                assert(oj != i);
            }
            assert forall|key: Seq<char>| #[trigger]
                old_map.remove(kv).contains_key(key) implies self@.contains_key(key) by {
                let j = ok.index_of(key);
                assert(ok[j] == key);
                assert(j != i);
                if j == n - 1 {
                    assert(nk[i as int] == key);
                } else {
                    assert(nk[j] == key);
                }
            }
            assert(self@ =~= old_map.remove(kv));
        }
    }

    /// Removes the entry with key `k`, if there is one.
    pub fn remove(&mut self, k: &str)
        requires
            old(self).wf(),
        ensures
            final(self).wf(),
            final(self)@ == old(self)@.remove(k@),
    {
        let kc = chars_of(k);
        match self.find(kc.as_slice()) {
            Some(i) => {
                self.remove_at(i);
            },
            None => {
                assert(self@ =~= old(self)@.remove(k@));
            },
        }
    }

    /// Removes every entry.
    pub fn clear(&mut self)
        ensures
            final(self).wf(),
            final(self)@ == Map::<Seq<char>, V::V>::empty(),
    {
        self.entries.clear();
        assert(self.keys() =~= Seq::<Seq<char>>::empty());
        assert(self@ =~= Map::<Seq<char>, V::V>::empty());
    }

    /// Whether some key starts with `prefix`.
    pub fn any_key_starts_with(&self, prefix: &[char]) -> (b: bool)
        requires
            self.wf(),
        ensures
            b == exists|k: Seq<char>| self@.contains_key(k) && starts_with(k, prefix@),
    {
        let mut i: usize = 0;
        while i < self.entries.len()
            invariant
                self.wf(),
                i <= self.entries@.len(),
                forall|j: int| 0 <= j < i ==> !starts_with(#[trigger] self.keys()[j], prefix@),
            decreases self.entries@.len() - i,
        {
            let ek = chars_of(self.entries[i].0.as_str());
            if chars_start_with(ek.as_slice(), prefix) {
                proof {
                    self.lemma_at(i as int);
                }
                return true;
            }
            i = i + 1;
        }
        proof {
            assert forall|k: Seq<char>| self@.contains_key(k) implies !starts_with(k, prefix@) by {
                let j = self.keys().index_of(k);
                assert(self.keys()[j] == k);
            }
        }
        false
    }

    /// Removes every entry whose key starts with `prefix`.
    pub fn remove_keys_starting_with(&mut self, prefix: &[char])
        requires
            old(self).wf(),
        ensures
            final(self).wf(),
            final(self)@ == old(self)@.restrict(
                Set::new(|k: Seq<char>| !starts_with(k, prefix@)),
            ),
    {
        let ghost target = old(self)@.restrict(Set::new(|k: Seq<char>| !starts_with(k, prefix@)));
        let mut i: usize = 0;
        while i < self.entries.len()
            invariant
                self.wf(),
                i <= self.entries@.len(),
                forall|j: int| 0 <= j < i ==> !starts_with(#[trigger] self.keys()[j], prefix@),
                forall|k: Seq<char>| #[trigger]
                    self@.contains_key(k) ==> old(self)@.contains_key(k) && self@[k] == old(
                        self,
                    )@[k],
                forall|k: Seq<char>| #[trigger]
                    old(self)@.contains_key(k) && !starts_with(k, prefix@) ==> self@.contains_key(
                        k,
                    ),
            decreases self.entries@.len() - i,
        {
            let ek = chars_of(self.entries[i].0.as_str());
            if chars_start_with(ek.as_slice(), prefix) {
                proof {
                    self.lemma_at(i as int);
                }
                self.remove_at(i);
            } else {
                proof {
                    self.lemma_at(i as int);
                }
                i = i + 1;
            }
        }
        proof {
            assert forall|k: Seq<char>| #[trigger]
                self@.contains_key(k) implies !starts_with(k, prefix@) by {
                let j = self.keys().index_of(k);
                assert(self.keys()[j] == k);
            }
            assert(self@ =~= target);
        }
    }

    /// Keeps only the entries whose key is one of `names`.
    pub fn retain_listed(&mut self, names: &Vec<String>)
        requires
            old(self).wf(),
        ensures
            final(self).wf(),
            final(self)@ == old(self)@.restrict(
                Set::new(|k: Seq<char>| exists|j: int| 0 <= j < names@.len() && names@[j]@ == k),
            ),
    {
        let ghost listed = Set::new(
            |k: Seq<char>| exists|j: int| 0 <= j < names@.len() && names@[j]@ == k,
        );
        let mut i: usize = 0;
        while i < self.entries.len()
            invariant
                self.wf(),
                i <= self.entries@.len(),
                listed == Set::new(
                    |k: Seq<char>| exists|j: int| 0 <= j < names@.len() && names@[j]@ == k,
                ),
                forall|j: int| 0 <= j < i ==> listed.contains(#[trigger] self.keys()[j]),
                forall|k: Seq<char>| #[trigger]
                    self@.contains_key(k) ==> old(self)@.contains_key(k) && self@[k] == old(
                        self,
                    )@[k],
                forall|k: Seq<char>| #[trigger]
                    old(self)@.contains_key(k) && listed.contains(k) ==> self@.contains_key(k),
            decreases self.entries@.len() - i,
        {
            let ek = chars_of(self.entries[i].0.as_str());
            let mut found = false;
            let mut j: usize = 0;
            while j < names.len()
                invariant
                    j <= names@.len(),
                    ek@ == self.entries@[i as int].0@,
                    i < self.entries@.len(),
                    found == exists|m: int| 0 <= m < j && names@[m]@ == ek@,
                decreases names@.len() - j,
            {
                let nc = chars_of(names[j].as_str());
                if crate::text::chars_eq(nc.as_slice(), ek.as_slice()) {
                    found = true;
                }
                j = j + 1;
            }
            proof {
                self.lemma_at(i as int);
                assert(self.keys()[i as int] == ek@);
                if found {
                    let m = choose|m: int| 0 <= m < j && names@[m]@ == ek@;
                    assert(listed.contains(ek@));
                } else {
                    assert(!listed.contains(ek@));
                }
            }
            if !found {
                self.remove_at(i);
            } else {
                i = i + 1;
            }
        }
        proof {
            assert forall|k: Seq<char>| #[trigger] self@.contains_key(k) implies listed.contains(k) by {
                let j = self.keys().index_of(k);
                assert(self.keys()[j] == k);
            }
            assert(self@ =~= old(self)@.restrict(listed));
        }
    }
}

impl<V: View> View for TextMap<V> {
    type V = Map<Seq<char>, V::V>;

    closed spec fn view(&self) -> Map<Seq<char>, V::V> {
        self.as_map()
    }
}

} // verus!
