//! The cache: what is known of each source.

use crate::domain::cache_entry::CacheEntry;
#[allow(unused_imports)]
use crate::domain::cache_entry::EntryView;
#[allow(unused_imports)]
use crate::strmap::sorted;
use crate::strmap::StrMap;
#[allow(unused_imports)]
use crate::text::Text;
use vstd::prelude::*;

verus! {

/// A cache. Whoever may change it holds it alone, so that reading an entry,
/// changing it and putting it back is one step for everybody else.
pub trait CachePort: Sized {
    /// What the cache holds of each source.
    spec fn entries(&self) -> Map<Text, EntryView>;

    /// Puts an entry, in place of what was there.
    fn set(&mut self, key: &str, entry: CacheEntry)
        ensures
            final(self).entries() == old(self).entries().insert(key@, entry@),
    ;

    /// The entry under a key.
    fn get(&self, key: &str) -> (entry: Option<CacheEntry>)
        ensures
            match entry {
                Some(e) => self.entries().contains_key(key@) && e@ == self.entries()[key@],
                None => !self.entries().contains_key(key@),
            },
    ;

    /// Takes an entry out.
    fn remove(&mut self, key: &str) -> (entry: Option<CacheEntry>)
        ensures
            final(self).entries() == old(self).entries().remove(key@),
            match entry {
                Some(e) => old(self).entries().contains_key(key@) && e@ == old(self).entries()[key@],
                None => !old(self).entries().contains_key(key@),
            },
    ;

    /// The keys, in ascending order.
    fn keys(&self) -> (keys: Vec<String>)
        ensures
            keys.deep_view() == sorted(self.entries().dom()),
            self.entries().dom().finite(),
    ;

    /// Every key with its entry, in ascending order of the keys.
    fn export(&self) -> (all: Vec<(String, CacheEntry)>)
        ensures
            all@.len() == sorted(self.entries().dom()).len(),
            forall|i: int|
                0 <= i < all@.len() ==> {
                    &&& (#[trigger] all@[i]).0@ == sorted(self.entries().dom())[i]
                    &&& all@[i].1@ == self.entries()[all@[i].0@]
                },
    ;
}

/// A cache in memory.
pub struct MemoryCache {
    map: StrMap<CacheEntry>,
}

impl MemoryCache {
    /// The empty cache.
    pub fn new() -> (cache: Self)
        ensures
            cache.entries() == Map::<Text, EntryView>::empty(),
    {
        MemoryCache { map: StrMap::new() }
    }
}

impl CachePort for MemoryCache {
    closed spec fn entries(&self) -> Map<Text, EntryView> {
        self.map@
    }

    fn set(&mut self, key: &str, entry: CacheEntry) {
        self.map.insert(key.to_owned(), entry);
    }

    fn get(&self, key: &str) -> (entry: Option<CacheEntry>) {
        match self.map.get(key) {
            Some(entry) => Some(entry.clone()),
            None => None,
        }
    }

    fn remove(&mut self, key: &str) -> (entry: Option<CacheEntry>) {
        self.map.remove(key)
    }

    fn keys(&self) -> (keys: Vec<String>) {
        let mut keys: Vec<String> = Vec::new();
        let n: usize = self.map.len();
        let ghost names = sorted(self.entries().dom());
        let mut i: usize = 0;
        while i < n
            invariant
                i <= n == names.len(),
                names == sorted(self.map@.dom()),
                keys.deep_view() == names.take(i as int),
            decreases n - i,
        {
            let ghost before = keys.deep_view();
            keys.push(self.map.key_at(i).clone());
            assert(keys.deep_view() =~= before.push(names[i as int]));
            assert(names.take(i + 1) =~= names.take(i as int).push(names[i as int]));
            i += 1;
        }
        assert(names.take(n as int) =~= names);
        keys
    }

    fn export(&self) -> (all: Vec<(String, CacheEntry)>) {
        let mut all: Vec<(String, CacheEntry)> = Vec::new();
        let n: usize = self.map.len();
        let mut i: usize = 0;
        while i < n
            invariant
                i <= n == sorted(self.map@.dom()).len(),
                all@.len() == i,
                forall|j: int|
                    0 <= j < i ==> {
                        &&& (#[trigger] all@[j]).0@ == sorted(self.map@.dom())[j]
                        &&& all@[j].1@ == self.map@[all@[j].0@]
                    },
            decreases n - i,
        {
            all.push((self.map.key_at(i).clone(), self.map.value_at(i).clone()));
            i += 1;
        }
        all
    }
}

} // verus!
