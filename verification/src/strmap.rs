//! A small map keyed by strings, kept in insertion order.
//!
//! The policy state (per-tool breakers, windows, cache entries, routing
//! tables) is keyed by tool or server name. This map is modelled as a
//! `Map<Seq<char>, V>` from the characters of each key to its value.

use vstd::prelude::*;

use crate::config::str_eq;

verus! {

/// A string-keyed map; keys are unique and kept in insertion order.
#[derive(Debug, Clone)]
pub struct StrMap<V> {
    entries: Vec<(String, V)>,
}

/// Some entry of `s` has key `k`.
pub open spec fn has_key<V>(s: Seq<(String, V)>, k: Seq<char>) -> bool {
    exists|i: int| 0 <= i < s.len() && #[trigger] s[i].0@ == k
}

/// No two entries of `s` share a key.
pub open spec fn keys_unique<V>(s: Seq<(String, V)>) -> bool {
    forall|i: int, j: int|
        0 <= i < s.len() && 0 <= j < s.len() && i != j ==> #[trigger] s[i].0@ != #[trigger] s[j].0@
}

/// The map from each key's characters to its value.
pub open spec fn entries_map<V>(s: Seq<(String, V)>) -> Map<Seq<char>, V> {
    Map::new(
        |k: Seq<char>| has_key(s, k),
        |k: Seq<char>| s[choose|i: int| 0 <= i < s.len() && #[trigger] s[i].0@ == k].1,
    )
}

/// In a map with unique keys, the entry at `i` is what its key maps to.
pub proof fn lemma_entry_is_mapped<V>(s: Seq<(String, V)>, i: int)
    requires
        keys_unique(s),
        0 <= i < s.len(),
    ensures
        entries_map(s).dom().contains(s[i].0@),
        entries_map(s)[s[i].0@] == s[i].1,
{
    let k = s[i].0@;
    assert(has_key(s, k));
    let j = choose|j: int| 0 <= j < s.len() && #[trigger] s[j].0@ == k;
    assert(j == i);
}

impl<V> View for StrMap<V> {
    type V = Map<Seq<char>, V>;

    closed spec fn view(&self) -> Map<Seq<char>, V> {
        entries_map(self.entries@)
    }
}

impl<V> StrMap<V> {
    /// The map's entries are well formed (keys unique).
    pub closed spec fn wf(&self) -> bool {
        keys_unique(self.entries@)
    }

    /// The keys, in insertion order.
    pub closed spec fn key_order(&self) -> Seq<Seq<char>> {
        self.entries@.map_values(|e: (String, V)| e.0@)
    }

    /// An empty map.
    pub fn new() -> (m: Self)
        ensures
            m.wf(),
            m@ == Map::<Seq<char>, V>::empty(),
            m.key_order() == Seq::<Seq<char>>::empty(),
    {
        let m = StrMap { entries: Vec::new() };
        assert(m@ =~= Map::<Seq<char>, V>::empty());
        assert(m.key_order() =~= Seq::<Seq<char>>::empty());
        m
    }

    /// Number of entries.
    pub fn len(&self) -> (n: usize)
        requires
            self.wf(),
        ensures
            n == self@.len(),
            n == self.key_order().len(),
    {
        proof {
            self.lemma_len();
        }
        self.entries.len()
    }

    /// The key order lists each key once, and exactly the map's keys.
    pub proof fn lemma_key_order(&self)
        requires
            self.wf(),
        ensures
            self.key_order().no_duplicates(),
            forall|k: Seq<char>| self@.contains_key(k) <==> self.key_order().contains(k),
    {
        let s = self.entries@;
        let ko = self.key_order();
        assert forall|k: Seq<char>| self@.contains_key(k) <==> ko.contains(k) by {
            if self@.contains_key(k) {
                let i = choose|i: int| 0 <= i < s.len() && #[trigger] s[i].0@ == k;
                assert(ko[i] == k);
            }
            if ko.contains(k) {
                let i = choose|i: int| 0 <= i < ko.len() && ko[i] == k;
                assert(s[i].0@ == k);
            }
        }
    }

    /// The number of entries is the size of the map's domain.
    pub proof fn lemma_len(&self)
        requires
            self.wf(),
        ensures
            self.key_order().len() == self@.len(),
            self@.dom().finite(),
    {
        self.lemma_key_order();
        let ko = self.key_order();
        ko.unique_seq_to_set();
        assert(ko.to_set() =~= self@.dom());
        assert(ko.len() == self.entries@.len());
    }

    /// The index of the entry for `k`, if any.
    fn find(&self, k: &str) -> (r: Option<usize>)
        requires
            self.wf(),
        ensures
            match r {
                Some(i) => i < self.entries@.len() && self.entries@[i as int].0@ == k@,
                None => !has_key(self.entries@, k@),
            },
    {
        let mut i: usize = 0;
        while i < self.entries.len()
            invariant
                i <= self.entries@.len(),
                forall|j: int| 0 <= j < i ==> #[trigger] self.entries@[j].0@ != k@,
            decreases self.entries@.len() - i,
        {
            if str_eq(self.entries[i].0.as_str(), k) {
                return Some(i);
            }
            i += 1;
        }
        None
    }

    /// Whether `k` has an entry.
    pub fn contains_key(&self, k: &str) -> (b: bool)
        requires
            self.wf(),
        ensures
            b == self@.contains_key(k@),
    {
        self.find(k).is_some()
    }

    /// The value for `k`, if any.
    pub fn get(&self, k: &str) -> (r: Option<&V>)
        requires
            self.wf(),
        ensures
            match r {
                Some(v) => self@.contains_key(k@) && *v == self@[k@],
                None => !self@.contains_key(k@),
            },
    {
        match self.find(k) {
            Some(i) => {
                proof {
                    lemma_entry_is_mapped(self.entries@, i as int);
                }
                Some(&self.entries[i].1)
            },
            None => None,
        }
    }

    /// Set the value for `k`, keeping its position if present, else appending it.
    pub fn insert(&mut self, k: String, v: V)
        requires
            old(self).wf(),
        ensures
            final(self).wf(),
            final(self)@ == old(self)@.insert(k@, v),
            old(self)@.contains_key(k@) ==> final(self).key_order() == old(self).key_order(),
            !old(self)@.contains_key(k@) ==> final(self).key_order() == old(self).key_order().push(
                k@,
            ),
    {
        let ghost old_s = self.entries@;
        match self.find(k.as_str()) {
            Some(i) => {
                self.entries.set(i, (k, v));
                let ghost new_s = self.entries@;
                assert(keys_unique(new_s)) by {
                    assert forall|a: int, b: int|
                        0 <= a < new_s.len() && 0 <= b < new_s.len() && a != b implies #[trigger] new_s[a].0@
                        != #[trigger] new_s[b].0@ by {
                        assert(new_s[a].0@ == old_s[a].0@);
                        assert(new_s[b].0@ == old_s[b].0@);
                    }
                }
                proof {
                    lemma_entry_is_mapped(new_s, i as int);
                    assert forall|key: Seq<char>| #[trigger] has_key(new_s, key) == has_key(old_s, key) by {
                        if has_key(old_s, key) {
                            let j = choose|j: int| 0 <= j < old_s.len() && #[trigger] old_s[j].0@ == key;
                            assert(new_s[j].0@ == key);
                        }
                        if has_key(new_s, key) {
                            let j = choose|j: int| 0 <= j < new_s.len() && #[trigger] new_s[j].0@ == key;
                            assert(old_s[j].0@ == key);
                        }
                    }
                    assert forall|key: Seq<char>|
                        #[trigger] has_key(new_s, key) && key != k@ implies entries_map(new_s)[key]
                        == entries_map(old_s)[key] by {
                        let j = choose|j: int| 0 <= j < new_s.len() && #[trigger] new_s[j].0@ == key;
                        lemma_entry_is_mapped(new_s, j);
                        lemma_entry_is_mapped(old_s, j);
                    }
                    assert(entries_map(new_s) =~= entries_map(old_s).insert(k@, v));
                    assert(self.key_order() =~= old(self).key_order());
                }
            },
            None => {
                self.entries.push((k, v));
                let ghost new_s = self.entries@;
                let ghost n = old_s.len() as int;
                assert(keys_unique(new_s)) by {
                    assert forall|a: int, b: int|
                        0 <= a < new_s.len() && 0 <= b < new_s.len() && a != b implies #[trigger] new_s[a].0@
                        != #[trigger] new_s[b].0@ by {
                        if a < n && b < n {
                            assert(new_s[a] == old_s[a]);
                            assert(new_s[b] == old_s[b]);
                        } else if a < n {
                            assert(new_s[a] == old_s[a]);
                            assert(old_s[a].0@ != k@);
                        } else {
                            assert(new_s[b] == old_s[b]);
                            assert(old_s[b].0@ != k@);
                        }
                    }
                }
                proof {
                    lemma_entry_is_mapped(new_s, n);
                    assert forall|key: Seq<char>| key != k@ implies #[trigger] has_key(new_s, key) == has_key(
                        old_s,
                        key,
                    ) by {
                        if has_key(old_s, key) {
                            let j = choose|j: int| 0 <= j < old_s.len() && #[trigger] old_s[j].0@ == key;
                            assert(new_s[j].0@ == key);
                        }
                        if has_key(new_s, key) {
                            let j = choose|j: int| 0 <= j < new_s.len() && #[trigger] new_s[j].0@ == key;
                            assert(j < n);
                            assert(old_s[j].0@ == key);
                        }
                    }
                    assert forall|key: Seq<char>|
                        #[trigger] has_key(new_s, key) && key != k@ implies entries_map(new_s)[key]
                        == entries_map(old_s)[key] by {
                        let j = choose|j: int| 0 <= j < new_s.len() && #[trigger] new_s[j].0@ == key;
                        assert(j < n);
                        lemma_entry_is_mapped(new_s, j);
                        assert(old_s[j] == new_s[j]);
                        lemma_entry_is_mapped(old_s, j);
                    }
                    assert(entries_map(new_s) =~= entries_map(old_s).insert(k@, v));
                    assert(self.key_order() =~= old(self).key_order().push(k@));
                }
            },
        }
    }

    /// Remove the entry for `k`, returning its value.
    pub fn remove(&mut self, k: &str) -> (r: Option<V>)
        requires
            old(self).wf(),
        ensures
            final(self).wf(),
            final(self)@ == old(self)@.remove(k@),
            match r {
                Some(v) => old(self)@.contains_key(k@) && v == old(self)@[k@],
                None => !old(self)@.contains_key(k@),
            },
    {
        let ghost old_s = self.entries@;
        match self.find(k) {
            Some(i) => {
                proof {
                    lemma_entry_is_mapped(old_s, i as int);
                }
                let (_, v) = self.entries.remove(i);
                let ghost new_s = self.entries@;
                assert(forall|j: int| 0 <= j < i ==> new_s[j] == old_s[j]);
                assert(forall|j: int| i <= j < new_s.len() ==> new_s[j] == old_s[j + 1]);
                assert(keys_unique(new_s)) by {
                    assert forall|a: int, b: int|
                        0 <= a < new_s.len() && 0 <= b < new_s.len() && a != b implies #[trigger] new_s[a].0@
                        != #[trigger] new_s[b].0@ by {
                        let oa = if a < i { a } else { a + 1 };
                        let ob = if b < i { b } else { b + 1 };
                        assert(new_s[a] == old_s[oa]);
                        assert(new_s[b] == old_s[ob]);
                    }
                }
                proof {
                    assert forall|key: Seq<char>| #[trigger] has_key(new_s, key) == (has_key(old_s, key) && key != k@) by {
                        if has_key(old_s, key) && key != k@ {
                            let j = choose|j: int| 0 <= j < old_s.len() && #[trigger] old_s[j].0@ == key;
                            assert(j != i);
                            let nj = if j < i { j } else { j - 1 };
                            assert(new_s[nj] == old_s[j]);
                        }
                        if has_key(new_s, key) {
                            let j = choose|j: int| 0 <= j < new_s.len() && #[trigger] new_s[j].0@ == key;
                            let oj = if j < i { j } else { j + 1 };
                            assert(new_s[j] == old_s[oj]);
                            assert(oj != i as int);
                        }
                    }
                    assert forall|key: Seq<char>| #[trigger] has_key(new_s, key) implies entries_map(new_s)[key]
                        == entries_map(old_s)[key] by {
                        let j = choose|j: int| 0 <= j < new_s.len() && #[trigger] new_s[j].0@ == key;
                        let oj = if j < i { j } else { j + 1 };
                        assert(new_s[j] == old_s[oj]);
                        lemma_entry_is_mapped(new_s, j);
                        lemma_entry_is_mapped(old_s, oj);
                    }
                    assert(entries_map(new_s) =~= entries_map(old_s).remove(k@));
                }
                Some(v)
            },
            None => {
                assert(entries_map(old_s) =~= entries_map(old_s).remove(k@));
                None
            },
        }
    }

    /// The key of the `i`-th entry, in insertion order.
    pub fn key_at(&self, i: usize) -> (k: &String)
        requires
            self.wf(),
            i < self.key_order().len(),
        ensures
            k@ == self.key_order()[i as int],
    {
        &self.entries[i].0
    }

    /// The value of the `i`-th entry, in insertion order.
    pub fn value_at(&self, i: usize) -> (v: &V)
        requires
            self.wf(),
            i < self.key_order().len(),
        ensures
            self@.contains_key(self.key_order()[i as int]),
            *v == self@[self.key_order()[i as int]],
    {
        proof {
            lemma_entry_is_mapped(self.entries@, i as int);
        }
        &self.entries[i].1
    }
}

} // verus!
