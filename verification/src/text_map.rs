//! A small ordered map keyed by strings: entries stay in the order in which
//! their keys first arrived, and no key occurs twice.

use vstd::prelude::*;
use crate::text::{lemma_index_of_unique, lemma_index_of_within, str_eq};

verus! {

/// The keys of a list of entries, in order.
pub open spec fn keys_of<T>(entries: Seq<(Seq<char>, T)>) -> Seq<Seq<char>> {
    entries.map_values(|e: (Seq<char>, T)| e.0)
}

/// No key occurs twice.
pub open spec fn unique_keys<T>(entries: Seq<(Seq<char>, T)>) -> bool {
    keys_of(entries).no_duplicates()
}

/// Whether some entry has the key `key`.
pub open spec fn has_key<T>(entries: Seq<(Seq<char>, T)>, key: Seq<char>) -> bool {
    keys_of(entries).contains(key)
}

/// The value under `key`, if some entry has that key.
pub open spec fn lookup<T>(entries: Seq<(Seq<char>, T)>, key: Seq<char>) -> Option<T> {
    if has_key(entries, key) {
        Some(entries[keys_of(entries).index_of(key)].1)
    } else {
        None
    }
}

/// The entries after `value` was stored under `key`: in the old entry's
/// place where the key was there, at the end where it was not.
pub open spec fn put<T>(entries: Seq<(Seq<char>, T)>, key: Seq<char>, value: T) -> Seq<
    (Seq<char>, T),
> {
    if has_key(entries, key) {
        entries.update(keys_of(entries).index_of(key), (key, value))
    } else {
        entries.push((key, value))
    }
}

/// Storing a value keeps the keys unique, makes the value the one found
/// under its key, and leaves what is found under every other key as it was.
pub proof fn lemma_put<T>(entries: Seq<(Seq<char>, T)>, key: Seq<char>, value: T, other: Seq<char>)
    requires
        unique_keys(entries),
    ensures
        unique_keys(put(entries, key, value)),
        lookup(put(entries, key, value), key) == Some(value),
        other != key ==> lookup(put(entries, key, value), other) == lookup(entries, other),
        has_key(put(entries, key, value), other) <==> (has_key(entries, other) || other == key),
        keys_of(put(entries, key, value)) == if has_key(entries, key) {
            keys_of(entries)
        } else {
            keys_of(entries).push(key)
        },
{
    let after = put(entries, key, value);
    let keys = keys_of(entries);
    if has_key(entries, key) {
        lemma_index_of_within(keys, key);
        assert(keys_of(after) =~= keys);
    } else {
        assert(keys_of(after) =~= keys.push(key));
        assert(keys_of(after)[keys.len() as int] == key);
        lemma_index_of_unique(keys_of(after), keys.len() as int);
        if has_key(entries, other) {
            lemma_index_of_within(keys, other);
            let i = keys.index_of(other);
            assert(keys_of(after)[i] == other);
            lemma_index_of_unique(keys_of(after), i);
        } else if has_key(after, other) {
            lemma_index_of_within(keys_of(after), other);
            let i = keys_of(after).index_of(other);
            if i < keys.len() {
                assert(keys[i] == other);
            }
        }
    }
}

/// An ordered map from strings to values of type `V`.
#[derive(Debug)]
pub struct TextMap<V> {
    pub(crate) keys: Vec<String>,
    pub(crate) values: Vec<V>,
}

impl<V: View> View for TextMap<V> {
    type V = Seq<(Seq<char>, V::V)>;

    open(crate) spec fn view(&self) -> Seq<(Seq<char>, V::V)> {
        Seq::new(self.keys@.len(), |i: int| (self.keys@[i]@, self.values@[i]@))
    }
}

impl<V: View> TextMap<V> {
    /// One value per key, and no key twice.
    pub open(crate) spec fn wf(&self) -> bool {
        self.keys@.len() == self.values@.len() && unique_keys(self@)
    }

    /// An empty map.
    pub fn new() -> (m: Self)
        ensures
            m.wf(),
            m@ == Seq::<(Seq<char>, V::V)>::empty(),
    {
        let m = TextMap { keys: Vec::new(), values: Vec::new() };
        assert(m@ =~= Seq::<(Seq<char>, V::V)>::empty());
        m
    }

    /// Number of entries.
    pub fn len(&self) -> (n: usize)
        ensures
            n == self@.len(),
    {
        self.keys.len()
    }

    /// The position of the entry under `key`, if there is one.
    pub fn position(&self, key: &str) -> (at: Option<usize>)
        requires
            self.wf(),
        ensures
            match at {
                Some(i) => i < self@.len() && self@[i as int].0 == key@ && has_key(self@, key@)
                    && i == keys_of(self@).index_of(key@),
                None => !has_key(self@, key@),
            },
    {
        let mut i: usize = 0;
        while i < self.keys.len()
            invariant
                i <= self.keys.len(),
                self.wf(),
                forall|j: int| 0 <= j < i ==> keys_of(self@)[j] != key@,
            decreases self.keys.len() - i,
        {
            if str_eq(self.keys[i].as_str(), key) {
                proof {
                    assert(keys_of(self@)[i as int] == key@);
                    lemma_index_of_unique(keys_of(self@), i as int);
                }
                return Some(i);
            }
            i = i + 1;
        }
        None
    }

    /// The value under `key`, if there is one.
    pub fn get(&self, key: &str) -> (found: Option<&V>)
        requires
            self.wf(),
        ensures
            match found {
                Some(v) => lookup(self@, key@) == Some(v@),
                None => lookup(self@, key@) is None,
            },
    {
        match self.position(key) {
            Some(i) => Some(&self.values[i]),
            None => None,
        }
    }

    /// The key at position `i`.
    pub fn key_at(&self, i: usize) -> (key: &String)
        requires
            self.wf(),
            i < self@.len(),
        ensures
            key@ == self@[i as int].0,
    {
        &self.keys[i]
    }

    /// The value at position `i`.
    pub fn value_at(&self, i: usize) -> (value: &V)
        requires
            self.wf(),
            i < self@.len(),
        ensures
            value@ == self@[i as int].1,
    {
        &self.values[i]
    }

    /// Stores `value` under `key`: in place of the value that was there, or
    /// as a new last entry.
    pub fn insert(&mut self, key: String, value: V)
        requires
            old(self).wf(),
        ensures
            final(self).wf(),
            final(self)@ == put(old(self)@, key@, value@),
    {
        let ghost before = self@;
        proof {
            lemma_put(before, key@, value@, key@);
        }
        match self.position(key.as_str()) {
            Some(i) => {
                self.values[i] = value;
                assert(self@ =~= put(before, key@, value@));
            },
            None => {
                self.keys.push(key);
                self.values.push(value);
                assert(self@ =~= put(before, key@, value@));
            },
        }
    }
}

} // verus!
