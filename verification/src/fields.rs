//! A small map from strings to strings that remembers insertion order.

use vstd::prelude::*;
use crate::text::str_equal;

verus! {

/// The entries of a map as pairs of character sequences, in order.
pub type Entries = Seq<(Seq<char>, Seq<char>)>;

/// No key occurs twice.
pub open spec fn distinct_keys(s: Entries) -> bool {
    forall|i: int, j: int| 0 <= i < j < s.len() ==> (#[trigger] s[i]).0 != (#[trigger] s[j]).0
}

/// Some entry has the key `k`.
pub open spec fn has_key(s: Entries, k: Seq<char>) -> bool {
    exists|i: int| 0 <= i < s.len() && (#[trigger] s[i]).0 == k
}

/// An index at which the key `k` stands; the only one where keys are
/// distinct.
pub open spec fn key_index(s: Entries, k: Seq<char>) -> int {
    choose|i: int| 0 <= i < s.len() && (#[trigger] s[i]).0 == k
}

/// The value stored under `k`, if any.
pub open spec fn lookup(s: Entries, k: Seq<char>) -> Option<Seq<char>> {
    if has_key(s, k) {
        Some(s[key_index(s, k)].1)
    } else {
        None
    }
}

/// The entries after storing `v` under `k`: an existing entry keeps its place
/// and takes the new value, a new key goes to the end.
pub open spec fn upsert(s: Entries, k: Seq<char>, v: Seq<char>) -> Entries {
    if has_key(s, k) {
        s.update(key_index(s, k), (k, v))
    } else {
        s.push((k, v))
    }
}

/// The entries without the key `k`; the others keep their order.
pub open spec fn without_key(s: Entries, k: Seq<char>) -> Entries {
    if has_key(s, k) {
        s.remove(key_index(s, k))
    } else {
        s
    }
}

/// The entries as a mathematical map.
pub open spec fn entries_map(s: Entries) -> Map<Seq<char>, Seq<char>> {
    Map::new(|k: Seq<char>| has_key(s, k), |k: Seq<char>| s[key_index(s, k)].1)
}

/// Where keys are distinct, the key at index `i` is found at `i`.
pub proof fn lemma_key_index(s: Entries, i: int)
    requires
        distinct_keys(s),
        0 <= i < s.len(),
    ensures
        has_key(s, s[i].0),
        key_index(s, s[i].0) == i,
        lookup(s, s[i].0) == Some(s[i].1),
{
    let k = s[i].0;
    let j = key_index(s, k);
    assert(0 <= j < s.len() && s[j].0 == k);
    if j < i {
        assert(s[j].0 != s[i].0);
    } else if i < j {
        assert(s[i].0 != s[j].0);
    }
}

/// Storing under a key keeps keys distinct, and afterwards the key maps to the
/// value while every other key maps to what it did.
pub proof fn lemma_upsert(s: Entries, k: Seq<char>, v: Seq<char>)
    requires
        distinct_keys(s),
    ensures
        distinct_keys(upsert(s, k, v)),
        entries_map(upsert(s, k, v)) == entries_map(s).insert(k, v),
{
    let t = upsert(s, k, v);
    if has_key(s, k) {
        let i = key_index(s, k);
        assert forall|a: int, b: int| 0 <= a < b < t.len() implies (#[trigger] t[a]).0 != (
        #[trigger] t[b]).0 by {
            assert(t[a].0 == s[a].0);
            assert(t[b].0 == s[b].0);
        }
        assert forall|q: Seq<char>| has_key(t, q) <==> has_key(s, q) by {
            if has_key(t, q) {
                let a = key_index(t, q);
                assert(s[a].0 == q);
            }
            if has_key(s, q) {
                let a = key_index(s, q);
                assert(t[a].0 == q);
            }
        }
        assert forall|q: Seq<char>| has_key(t, q) implies #[trigger] entries_map(t)[q]
            == entries_map(s).insert(k, v)[q] by {
            let a = key_index(t, q);
            lemma_key_index(t, a);
            lemma_key_index(s, a);
        }
    } else {
        assert forall|a: int, b: int| 0 <= a < b < t.len() implies (#[trigger] t[a]).0 != (
        #[trigger] t[b]).0 by {
            if b == s.len() {
                assert(s[a].0 != k);
            } else {
                assert(t[a].0 == s[a].0);
                assert(t[b].0 == s[b].0);
            }
        }
        assert forall|q: Seq<char>| has_key(t, q) <==> (has_key(s, q) || q == k) by {
            if has_key(t, q) {
                let a = key_index(t, q);
                if a < s.len() {
                    assert(s[a].0 == q);
                }
            }
            if has_key(s, q) {
                let a = key_index(s, q);
                assert(t[a].0 == q);
            }
            if q == k {
                assert(t[s.len() as int].0 == q);
            }
        }
        assert forall|q: Seq<char>| has_key(t, q) implies #[trigger] entries_map(t)[q]
            == entries_map(s).insert(k, v)[q] by {
            let a = key_index(t, q);
            lemma_key_index(t, a);
            if a < s.len() {
                lemma_key_index(s, a);
            }
        }
    }
    assert(entries_map(t) =~= entries_map(s).insert(k, v));
}

/// Removing a key keeps keys distinct, and afterwards the key is absent while
/// every other key maps to what it did.
pub proof fn lemma_without_key(s: Entries, k: Seq<char>)
    requires
        distinct_keys(s),
    ensures
        distinct_keys(without_key(s, k)),
        entries_map(without_key(s, k)) == entries_map(s).remove(k),
{
    let t = without_key(s, k);
    if has_key(s, k) {
        let i = key_index(s, k);
        assert forall|a: int, b: int| 0 <= a < b < t.len() implies (#[trigger] t[a]).0 != (
        #[trigger] t[b]).0 by {
            let sa = if a < i { a } else { a + 1 };
            let sb = if b < i { b } else { b + 1 };
            assert(t[a] == s[sa]);
            assert(t[b] == s[sb]);
        }
        assert forall|q: Seq<char>| has_key(t, q) <==> (has_key(s, q) && q != k) by {
            if has_key(t, q) {
                let a = key_index(t, q);
                let sa = if a < i { a } else { a + 1 };
                assert(t[a] == s[sa]);
                assert(s[sa].0 == q);
                lemma_key_index(s, sa);
            }
            if has_key(s, q) && q != k {
                let a = key_index(s, q);
                let ta = if a < i { a } else { a - 1 };
                assert(t[ta] == s[a]);
                assert(t[ta].0 == q);
            }
        }
        assert forall|q: Seq<char>| has_key(t, q) implies #[trigger] entries_map(t)[q]
            == entries_map(s).remove(k)[q] by {
            let a = key_index(t, q);
            let sa = if a < i { a } else { a + 1 };
            assert(t[a] == s[sa]);
            lemma_key_index(t, a);
            lemma_key_index(s, sa);
        }
    }
    assert(entries_map(t) =~= entries_map(s).remove(k));
}

/// A map from strings to strings. Each key occurs once; entries keep the
/// order in which their keys were first inserted.
#[derive(Debug)]
pub struct StringMap {
    entries: Vec<(String, String)>,
}

impl View for StringMap {
    type V = Map<Seq<char>, Seq<char>>;

    open spec fn view(&self) -> Map<Seq<char>, Seq<char>> {
        entries_map(self.entries())
    }
}

impl StringMap {
    #[verifier::type_invariant]
    spec fn keys_are_distinct(self) -> bool {
        distinct_keys(self.entries())
    }

    /// The entries in insertion order.
    pub closed spec fn entries(&self) -> Entries {
        self.entries@.map_values(|p: (String, String)| (p.0@, p.1@))
    }

    /// An empty map.
    pub fn new() -> (m: StringMap)
        ensures
            m.entries() == Seq::<(Seq<char>, Seq<char>)>::empty(),
            m@ == Map::<Seq<char>, Seq<char>>::empty(),
    {
        let m = StringMap { entries: Vec::new() };
        assert(m.entries() =~= Seq::empty());
        assert(m@ =~= Map::empty());
        m
    }

    /// Number of entries. Also tells the caller that keys are distinct.
    pub fn len(&self) -> (n: usize)
        ensures
            n == self.entries().len(),
            distinct_keys(self.entries()),
    {
        proof {
            use_type_invariant(self);
        }
        self.entries.len()
    }

    /// Whether the map has no entries.
    pub fn is_empty(&self) -> (b: bool)
        ensures
            b == (self.entries().len() == 0),
    {
        self.entries.len() == 0
    }

    /// The key of the entry at position `i`.
    pub fn key_at(&self, i: usize) -> (k: &String)
        requires
            i < self.entries().len(),
        ensures
            k@ == self.entries()[i as int].0,
    {
        &self.entries[i].0
    }

    /// The value of the entry at position `i`.
    pub fn value_at(&self, i: usize) -> (v: &String)
        requires
            i < self.entries().len(),
        ensures
            v@ == self.entries()[i as int].1,
    {
        &self.entries[i].1
    }

    /// Position of `key` among the entries, if it is present.
    fn position(&self, key: &str) -> (p: Option<usize>)
        ensures
            distinct_keys(self.entries()),
            match p {
                Some(i) => i < self.entries().len() && self.entries()[i as int].0 == key@
                    && has_key(self.entries(), key@) && key_index(self.entries(), key@) == i,
                None => !has_key(self.entries(), key@),
            },
    {
        proof {
            use_type_invariant(self);
        }
        let mut i: usize = 0;
        while i < self.entries.len()
            invariant
                i <= self.entries.len(),
                distinct_keys(self.entries()),
                forall|j: int| 0 <= j < i ==> (#[trigger] self.entries()[j]).0 != key@,
            decreases self.entries.len() - i,
        {
            if str_equal(self.entries[i].0.as_str(), key) {
                proof {
                    lemma_key_index(self.entries(), i as int);
                }
                return Some(i);
            }
            i += 1;
        }
        None
    }

    /// The value stored under `key`, if any.
    pub fn get(&self, key: &str) -> (r: Option<&String>)
        ensures
            match r {
                Some(v) => lookup(self.entries(), key@) == Some(v@),
                None => lookup(self.entries(), key@) is None,
            },
            r is Some <==> self@.dom().contains(key@),
            r matches Some(v) ==> self@[key@] == v@,
    {
        match self.position(key) {
            Some(i) => Some(&self.entries[i].1),
            None => None,
        }
    }

    /// Whether `key` is present.
    pub fn contains_key(&self, key: &str) -> (b: bool)
        ensures
            b == has_key(self.entries(), key@),
            b == self@.dom().contains(key@),
    {
        self.position(key).is_some()
    }

    /// Stores `value` under `key` and returns the value that was there before.
    /// An existing entry keeps its position.
    pub fn insert(&mut self, key: String, value: String) -> (previous: Option<String>)
        ensures
            final(self).entries() == upsert(old(self).entries(), key@, value@),
            final(self)@ == old(self)@.insert(key@, value@),
            match previous {
                Some(p) => lookup(old(self).entries(), key@) == Some(p@),
                None => lookup(old(self).entries(), key@) is None,
            },
    {
        let ghost before = self.entries();
        proof {
            use_type_invariant(&*self);
            lemma_upsert(before, key@, value@);
        }
        let found = self.position(key.as_str());
        let mut entries: Vec<(String, String)> = Vec::new();
        core::mem::swap(&mut self.entries, &mut entries);
        let previous = match found {
            Some(i) => {
                let previous = entries[i].1.clone();
                entries.set(i, (key, value));
                Some(previous)
            },
            None => {
                entries.push((key, value));
                None
            },
        };
        assert(entries@.map_values(|p: (String, String)| (p.0@, p.1@)) =~= upsert(
            before,
            key@,
            value@,
        ));
        core::mem::swap(&mut self.entries, &mut entries);
        previous
    }

    /// Removes `key` and returns the value that was stored under it.
    pub fn remove(&mut self, key: &str) -> (removed: Option<String>)
        ensures
            final(self).entries() == without_key(old(self).entries(), key@),
            final(self)@ == old(self)@.remove(key@),
            match removed {
                Some(p) => lookup(old(self).entries(), key@) == Some(p@),
                None => lookup(old(self).entries(), key@) is None,
            },
    {
        let ghost before = self.entries();
        proof {
            use_type_invariant(&*self);
            lemma_without_key(before, key@);
        }
        let found = self.position(key);
        let mut entries: Vec<(String, String)> = Vec::new();
        core::mem::swap(&mut self.entries, &mut entries);
        let removed = match found {
            Some(i) => {
                let entry = entries.remove(i);
                Some(entry.1)
            },
            None => None,
        };
        assert(entries@.map_values(|p: (String, String)| (p.0@, p.1@)) =~= without_key(
            before,
            key@,
        ));
        core::mem::swap(&mut self.entries, &mut entries);
        removed
    }
}

impl Clone for StringMap {
    fn clone(&self) -> (m: StringMap)
        ensures
            m.entries() == self.entries(),
            m@ == self@,
    {
        proof {
            use_type_invariant(self);
        }
        let mut entries: Vec<(String, String)> = Vec::new();
        let mut i: usize = 0;
        while i < self.entries.len()
            invariant
                i <= self.entries.len(),
                entries@.len() == i,
                forall|j: int|
                    0 <= j < i ==> (#[trigger] entries@[j]).0@ == self.entries@[j].0@
                        && entries@[j].1@ == self.entries@[j].1@,
            decreases self.entries.len() - i,
        {
            entries.push((self.entries[i].0.clone(), self.entries[i].1.clone()));
            i += 1;
        }
        let ghost copied = entries@.map_values(|p: (String, String)| (p.0@, p.1@));
        assert(copied =~= self.entries());
        StringMap { entries }
    }
}

} // verus!
