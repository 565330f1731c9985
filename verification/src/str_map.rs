use vstd::prelude::*;

use crate::text::str_eq;

verus! {

/// A map from strings to values that keeps its entries in the order they were first
/// inserted; no key occurs twice.
pub struct StrMap<V> {
    entries: Vec<(String, V)>,
}

impl<V> StrMap<V> {
    /// The entries, in insertion order.
    pub closed spec fn spec_entries(&self) -> Seq<(String, V)> {
        self.entries@
    }

    /// Number of entries.
    pub open spec fn spec_len(&self) -> nat {
        self.spec_entries().len()
    }

    /// The text of the key of entry `i`.
    pub open spec fn key_at(&self, i: int) -> Seq<char> {
        self.spec_entries()[i].0@
    }

    /// The value of entry `i`.
    pub open spec fn value_at(&self, i: int) -> V {
        self.spec_entries()[i].1
    }

    /// The keys' texts, in insertion order.
    pub open spec fn spec_keys(&self) -> Seq<Seq<char>> {
        Seq::new(self.spec_len(), |i: int| self.key_at(i))
    }

    /// Whether some entry has the key `k`.
    pub open spec fn has_key(&self, k: Seq<char>) -> bool {
        exists|i: int| 0 <= i < self.spec_len() && self.key_at(i) == k
    }

    /// The position of the entry with key `k` (meaningful when `has_key(k)`).
    pub open spec fn index_of(&self, k: Seq<char>) -> int {
        choose|i: int| 0 <= i < self.spec_len() && self.key_at(i) == k
    }

    /// The value stored under `k`, if any.
    pub open spec fn spec_get(&self, k: Seq<char>) -> Option<V> {
        if self.has_key(k) {
            Some(self.value_at(self.index_of(k)))
        } else {
            None
        }
    }

    /// No two entries have the same key.
    pub open spec fn keys_unique(&self) -> bool {
        forall|i: int, j: int|
            0 <= i < self.spec_len() && 0 <= j < self.spec_len() && i != j ==> self.key_at(i)
                != self.key_at(j)
    }

    /// The map's invariant: its keys are unique.
    #[verifier::type_invariant]
    pub open spec fn well_formed(&self) -> bool {
        self.keys_unique()
    }

    /// With unique keys, the position of entry `i`'s key is `i`.
    pub proof fn lemma_index_of(&self, i: int)
        requires
            self.keys_unique(),
            0 <= i < self.spec_len(),
        ensures
            self.has_key(self.key_at(i)),
            self.index_of(self.key_at(i)) == i,
            self.spec_get(self.key_at(i)) == Some(self.value_at(i)),
    {
    }

    /// An empty map.
    pub fn new() -> (r: Self)
        ensures
            r.spec_len() == 0,
    {
        StrMap { entries: Vec::new() }
    }

    /// Number of entries.
    pub fn len(&self) -> (r: usize)
        ensures
            r == self.spec_len(),
    {
        self.entries.len()
    }

    /// Whether the map has no entries.
    pub fn is_empty(&self) -> (r: bool)
        ensures
            r == (self.spec_len() == 0),
    {
        self.entries.len() == 0
    }

    /// The key of entry `i`.
    pub fn key(&self, i: usize) -> (r: &String)
        requires
            i < self.spec_len(),
        ensures
            *r == self.spec_entries()[i as int].0,
    {
        &self.entries[i].0
    }

    /// The value of entry `i`.
    pub fn value(&self, i: usize) -> (r: &V)
        requires
            i < self.spec_len(),
        ensures
            *r == self.value_at(i as int),
    {
        &self.entries[i].1
    }

    /// The position of the entry with key `key`, if any.
    pub fn find(&self, key: &str) -> (r: Option<usize>)
        ensures
            match r {
                Some(i) => i < self.spec_len() && self.key_at(i as int) == key@ && self.index_of(
                    key@,
                ) == i,
                None => !self.has_key(key@),
            },
    {
        proof {
            use_type_invariant(self);
        }
        let mut i: usize = 0;
        while i < self.entries.len()
            invariant
                i <= self.spec_len(),
                self.keys_unique(),
                forall|j: int| 0 <= j < i ==> self.key_at(j) != key@,
            decreases self.spec_len() - i,
        {
            if str_eq(self.entries[i].0.as_str(), key) {
                proof {
                    self.lemma_index_of(i as int);
                }
                return Some(i);
            }
            i += 1;
        }
        None
    }

    /// The value stored under `key`, if any (`HashMap::get`).
    pub fn get(&self, key: &str) -> (r: Option<&V>)
        ensures
            match r {
                Some(v) => self.spec_get(key@) == Some(*v),
                None => self.spec_get(key@) is None,
            },
    {
        match self.find(key) {
            Some(i) => Some(&self.entries[i].1),
            None => None,
        }
    }

    /// Whether some entry has the key `key` (`HashMap::contains_key`).
    pub fn contains_key(&self, key: &str) -> (r: bool)
        ensures
            r == self.has_key(key@),
    {
        self.find(key).is_some()
    }

    /// Stores `value` under `key`: an existing entry with that key keeps its place and gets
    /// the new value, otherwise the entry is added at the end (`HashMap::insert`).
    pub fn insert(&mut self, key: String, value: V)
        ensures
            old(self).has_key(key@) ==> final(self).spec_entries() == old(self).spec_entries().update(
                old(self).index_of(key@),
                (old(self).spec_entries()[old(self).index_of(key@)].0, value),
            ),
            !old(self).has_key(key@) ==> final(self).spec_entries() == old(
                self,
            ).spec_entries().push((key, value)),
    {
        proof {
            use_type_invariant(&*self);
        }
        match self.find(key.as_str()) {
            Some(i) => {
                let mut entries = Vec::new();
                std::mem::swap(&mut entries, &mut self.entries);
                let ghost before = entries@;
                let old_key = entries.remove(i);
                let (k, _) = old_key;
                entries.insert(i, (k, value));
                assert(entries@ =~= before.update(i as int, (before[i as int].0, value)));
                proof {
                    let e = entries@;
                    assert forall|a: int, b: int|
                        0 <= a < e.len() && 0 <= b < e.len() && a != b implies e[a].0@ != e[b].0@ by {
                        assert(old(self).key_at(a) != old(self).key_at(b));
                    }
                }
                self.entries = entries;
            },
            None => {
                let ghost before = self.entries@;
                let mut entries = Vec::new();
                std::mem::swap(&mut entries, &mut self.entries);
                entries.push((key, value));
                proof {
                    let e = entries@;
                    assert forall|a: int, b: int|
                        0 <= a < e.len() && 0 <= b < e.len() && a != b implies e[a].0@ != e[b].0@ by {
                        if a < before.len() && b < before.len() {
                            assert(old(self).key_at(a) != old(self).key_at(b));
                        } else if a < before.len() {
                            assert(old(self).key_at(a) == e[a].0@);
                        } else {
                            assert(old(self).key_at(b) == e[b].0@);
                        }
                    }
                }
                self.entries = entries;
            },
        }
    }
}

/// Reading a key right after storing a value under it gives that value back, and every
/// other key keeps what it had.
pub proof fn law_get_after_insert<V>(before: StrMap<V>, after: StrMap<V>, key: String, value: V)
    requires
        before.keys_unique(),
        after.keys_unique(),
        before.has_key(key@) ==> after.spec_entries() == before.spec_entries().update(
            before.index_of(key@),
            (before.spec_entries()[before.index_of(key@)].0, value),
        ),
        !before.has_key(key@) ==> after.spec_entries() == before.spec_entries().push((key, value)),
    ensures
        after.spec_get(key@) == Some(value),
        forall|k: Seq<char>| k != key@ ==> #[trigger] after.spec_get(k) == before.spec_get(k),
{
    if before.has_key(key@) {
        let i = before.index_of(key@);
        after.lemma_index_of(i);
        assert(after.key_at(i) == key@);
    } else {
        let i = before.spec_len() as int;
        after.lemma_index_of(i);
        assert(after.key_at(i) == key@);
    }
    assert forall|k: Seq<char>| k != key@ implies #[trigger] after.spec_get(k) == before.spec_get(k) by {
        if before.has_key(k) {
            let j = before.index_of(k);
            before.lemma_index_of(j);
            after.lemma_index_of(j);
            assert(after.key_at(j) == k);
        }
        if after.has_key(k) {
            let j = after.index_of(k);
            after.lemma_index_of(j);
            if j < before.spec_len() {
                before.lemma_index_of(j);
                assert(before.key_at(j) == k);
            }
        }
    }
}

} // verus!
