//! Read-only catalogs of shared entries, keyed by name.
use std::sync::Arc;
use vstd::prelude::*;
use crate::item::share;
use crate::lang::text_eq;

verus! {

/// Entries keyed by name. A name appears at most once.
pub struct Catalog<T> {
    entries: Vec<(String, Arc<T>)>,
}

/// The index of the first of the first `n` pairs named `key`.
pub open spec fn first_key<T>(entries: Seq<(String, Arc<T>)>, key: Seq<char>, n: int) -> Option<
    int,
>
    decreases n,
{
    if n <= 0 || entries.len() < n {
        None
    } else {
        match first_key(entries, key, n - 1) {
            Some(i) => Some(i),
            None => if entries[n - 1].0@ == key {
                Some(n - 1)
            } else {
                None
            },
        }
    }
}

proof fn lemma_first_key_stable<T>(entries: Seq<(String, Arc<T>)>, key: Seq<char>, m: int, n: int)
    requires
        0 <= m <= n <= entries.len(),
        first_key(entries, key, m) is Some,
    ensures
        first_key(entries, key, n) == first_key(entries, key, m),
    decreases n - m,
{
    if m < n {
        lemma_first_key_stable(entries, key, m, n - 1);
    }
}

proof fn lemma_first_key_bounds<T>(entries: Seq<(String, Arc<T>)>, key: Seq<char>, n: int)
    ensures
        first_key(entries, key, n) matches Some(i) ==> 0 <= i < n && entries[i].0@ == key,
    decreases n,
{
    if n > 0 && entries.len() >= n {
        lemma_first_key_bounds(entries, key, n - 1);
    }
}

/// A push of a name not yet present leaves the earlier names where they were.
proof fn lemma_first_key_push<T>(
    entries: Seq<(String, Arc<T>)>,
    pair: (String, Arc<T>),
    key: Seq<char>,
    n: int,
)
    requires
        0 <= n <= entries.len(),
    ensures
        first_key(entries.push(pair), key, n) == first_key(entries, key, n),
    decreases n,
{
    if n > 0 {
        lemma_first_key_push(entries, pair, key, n - 1);
    }
}

/// Replacing the value of pair `j` keeps every name where it was.
proof fn lemma_first_key_update<T>(
    entries: Seq<(String, Arc<T>)>,
    j: int,
    pair: (String, Arc<T>),
    key: Seq<char>,
    n: int,
)
    requires
        0 <= j < entries.len(),
        pair.0@ == entries[j].0@,
        0 <= n <= entries.len(),
    ensures
        first_key(entries.update(j, pair), key, n) == first_key(entries, key, n),
    decreases n,
{
    if n > 0 {
        lemma_first_key_update(entries, j, pair, key, n - 1);
    }
}

impl<T> Catalog<T> {
    /// The entry named `key`.
    pub closed spec fn spec_get(&self, key: Seq<char>) -> Option<Arc<T>> {
        match first_key(self.entries@, key, self.entries@.len() as int) {
            Some(i) => Some(self.entries@[i].1),
            None => None,
        }
    }

    pub fn new() -> (r: Catalog<T>)
        ensures
            forall|k: Seq<char>| r.spec_get(k) is None,
    {
        Catalog { entries: Vec::new() }
    }

    fn position(&self, key: &str) -> (r: Option<usize>)
        ensures
            r matches Some(i) ==> i < self.entries@.len(),
            r matches Some(i) ==> first_key(self.entries@, key@, self.entries@.len() as int) == Some(
                i as int,
            ),
            r is None ==> first_key(self.entries@, key@, self.entries@.len() as int) is None,
    {
        let mut i: usize = 0;
        while i < self.entries.len()
            invariant
                0 <= i <= self.entries@.len(),
                first_key(self.entries@, key@, i as int) is None,
            decreases self.entries.len() - i,
        {
            if text_eq(self.entries[i].0.as_str(), key) {
                assert(first_key(self.entries@, key@, i + 1) == Some(i as int));
                proof {
                    lemma_first_key_stable(self.entries@, key@, i + 1, self.entries@.len() as int);
                }
                return Some(i);
            }
            i = i + 1;
        }
        None
    }

    /// The entry named `key`, shared.
    pub fn get(&self, key: &str) -> (r: Option<Arc<T>>)
        ensures
            r == self.spec_get(key@),
    {
        match self.position(key) {
            Some(i) => Some(share(&self.entries[i].1)),
            None => None,
        }
    }

    /// Puts `value` under `key`, in place of any entry of that name.
    pub fn insert(&mut self, key: String, value: Arc<T>)
        ensures
            final(self).spec_get(key@) == Some(value),
            forall|k: Seq<char>| k != key@ ==> final(self).spec_get(k) == old(self).spec_get(k),
    {
        let ghost old_entries = self.entries@;
        let ghost kv = key@;
        match self.position(key.as_str()) {
            Some(i) => {
                proof {
                    lemma_first_key_bounds(old_entries, kv, old_entries.len() as int);
                }
                let ghost pair = (key, value);
                self.entries.set(i, (key, value));
                assert(self.entries@ == old_entries.update(i as int, pair));
                assert forall|k: Seq<char>| k != kv implies #[trigger] self.spec_get(k)
                    == old(self).spec_get(k) by {
                    lemma_first_key_update(old_entries, i as int, pair, k, old_entries.len() as int);
                    lemma_first_key_bounds(old_entries, k, old_entries.len() as int);
                }
                proof {
                    lemma_first_key_update(old_entries, i as int, pair, kv, old_entries.len() as int);
                }
            },
            None => {
                let ghost pair = (key, value);
                self.entries.push((key, value));
                assert(self.entries@ == old_entries.push(pair));
                let ghost n = old_entries.len() as int;
                assert forall|k: Seq<char>| k != kv implies #[trigger] self.spec_get(k)
                    == old(self).spec_get(k) by {
                    lemma_first_key_push(old_entries, pair, k, n);
                    lemma_first_key_bounds(old_entries, k, n);
                    assert(first_key(self.entries@, k, n + 1) == first_key(self.entries@, k, n));
                }
                proof {
                    lemma_first_key_push(old_entries, pair, kv, n);
                }
                assert(first_key(self.entries@, kv, n + 1) == Some(n));
            },
        }
    }
}

} // verus!
