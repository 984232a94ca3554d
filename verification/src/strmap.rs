//! A map from strings to values, kept in the order of its keys.

use crate::text::{str_lt, Text};
#[allow(unused_imports)]
use crate::text::{
    lemma_text_lt_asymmetric, lemma_text_lt_irreflexive, lemma_text_lt_total,
    lemma_text_lt_transitive, text_lt,
};
use vstd::prelude::*;

verus! {

/// The texts of `s` stand in strictly ascending order.
pub open spec fn ascending(s: Seq<Text>) -> bool {
    forall|i: int, j: int| #![trigger s[i], s[j]] 0 <= i < j < s.len() ==> text_lt(s[i], s[j])
}

/// The elements of a set of texts, in ascending order.
pub open spec fn sorted(set: Set<Text>) -> Seq<Text> {
    choose|s: Seq<Text>| ascending(s) && s.to_set() == set
}

/// Ascending texts do not repeat.
pub proof fn lemma_ascending_distinct(s: Seq<Text>)
    requires
        ascending(s),
    ensures
        s.no_duplicates(),
{
    assert forall|i: int, j: int| 0 <= i < s.len() && 0 <= j < s.len() && i != j implies s[i]
        != s[j] by {
        lemma_text_lt_irreflexive(s[i]);
        lemma_text_lt_irreflexive(s[j]);
    }
}

/// Only one ascending sequence holds the texts of a given set.
pub proof fn lemma_ascending_unique(a: Seq<Text>, b: Seq<Text>)
    requires
        ascending(a),
        ascending(b),
        a.to_set() == b.to_set(),
    ensures
        a == b,
    decreases a.len(),
{
    if a.len() == 0 {
        if b.len() > 0 {
            assert(b.to_set().contains(b[0]));
            assert(a.to_set().contains(b[0]));
            assert(false);
        }
        assert(a =~= b);
    } else {
        assert(a.to_set().contains(a.last()));
        assert(b.to_set().contains(a.last()));
        let j = choose|j: int| 0 <= j < b.len() && b[j] == a.last();
        assert(b.to_set().contains(b.last()));
        assert(a.to_set().contains(b.last()));
        let i = choose|i: int| 0 <= i < a.len() && a[i] == b.last();
        if i < a.len() - 1 {
            assert(text_lt(a[i], a[a.len() - 1]));
            if j < b.len() - 1 {
                assert(text_lt(b[j], b[b.len() - 1]));
                lemma_text_lt_asymmetric(b.last(), a.last());
            } else {
                lemma_text_lt_irreflexive(a.last());
            }
            assert(false);
        }
        assert(a.last() == b.last());
        let a1 = a.drop_last();
        let b1 = b.drop_last();
        lemma_ascending_distinct(a);
        lemma_ascending_distinct(b);
        assert(a1.to_set() =~= a.to_set().remove(a.last())) by {
            assert forall|t: Text| a.to_set().remove(a.last()).contains(t) implies a1.to_set().contains(t) by {
                let k = choose|k: int| 0 <= k < a.len() && a[k] == t;
                assert(a1[k] == t);
            }
            assert forall|t: Text| a1.to_set().contains(t) implies a.to_set().remove(a.last()).contains(t) by {
                let k = choose|k: int| 0 <= k < a1.len() && a1[k] == t;
                assert(a[k] == t);
            }
        }
        assert(b1.to_set() =~= b.to_set().remove(b.last())) by {
            assert forall|t: Text| b.to_set().remove(b.last()).contains(t) implies b1.to_set().contains(t) by {
                let k = choose|k: int| 0 <= k < b.len() && b[k] == t;
                assert(b1[k] == t);
            }
            assert forall|t: Text| b1.to_set().contains(t) implies b.to_set().remove(b.last()).contains(t) by {
                let k = choose|k: int| 0 <= k < b1.len() && b1[k] == t;
                assert(b[k] == t);
            }
        }
        lemma_ascending_unique(a1, b1);
        assert(a =~= a1.push(a.last()));
        assert(b =~= b1.push(b.last()));
    }
}

/// An ascending sequence is what `sorted` makes of its own texts.
pub proof fn lemma_sorted_is(s: Seq<Text>)
    requires
        ascending(s),
    ensures
        sorted(s.to_set()) == s,
{
    let c = sorted(s.to_set());
    assert(ascending(s) && s.to_set() == s.to_set());
    assert(ascending(c) && c.to_set() == s.to_set());
    lemma_ascending_unique(c, s);
}

/// A new text has a place among ascending ones.
proof fn lemma_ascending_insert(s: Seq<Text>, t: Text) -> (r: Seq<Text>)
    requires
        ascending(s),
        !s.contains(t),
    ensures
        ascending(r),
        r.to_set() == s.to_set().insert(t),
    decreases s.len(),
{
    broadcast use vstd::seq_lib::group_seq_properties;

    if s.len() == 0 || text_lt(s.last(), t) {
        let r = s.push(t);
        assert forall|i: int, j: int| 0 <= i < j < r.len() implies #[trigger] text_lt(r[i], r[j]) by {
            if j == s.len() {
                if i < s.len() - 1 {
                    lemma_text_lt_transitive(s[i], s.last(), t);
                }
            } else {
                assert(r[i] == s[i] && r[j] == s[j]);
            }
        }
        assert(r.to_set() =~= s.to_set().insert(t));
        r
    } else {
        let rest = s.drop_last();
        assert(s.contains(s.last()));
        lemma_text_lt_total(s.last(), t);
        assert forall|u: Text| rest.contains(u) implies s.contains(u) && text_lt(u, s.last()) by {
            let i = choose|i: int| 0 <= i < rest.len() && rest[i] == u;
            assert(s[i] == u);
        }
        let inner = lemma_ascending_insert(rest, t);
        let r = inner.push(s.last());
        assert forall|i: int, j: int| 0 <= i < j < r.len() implies #[trigger] text_lt(r[i], r[j]) by {
            if j == inner.len() {
                assert(inner.to_set().contains(inner[i]));
                assert(rest.to_set().insert(t).contains(inner[i]));
            } else {
                assert(r[i] == inner[i] && r[j] == inner[j]);
            }
        }
        assert(s =~= rest.push(s.last()));
        assert(s.to_set() =~= rest.to_set().insert(s.last()));
        assert(r.to_set() =~= inner.to_set().insert(s.last()));
        assert(r.to_set() =~= s.to_set().insert(t));
        r
    }
}

/// Every finite set of texts can be put in ascending order.
pub proof fn lemma_sorted(set: Set<Text>)
    requires
        set.finite(),
    ensures
        ascending(sorted(set)),
        sorted(set).to_set() == set,
        sorted(set).no_duplicates(),
        sorted(set).len() == set.len(),
    decreases set.len(),
{
    if set.len() == 0 {
        let s = Seq::<Text>::empty();
        assert(s.to_set() =~= set);
        assert(ascending(s));
        lemma_sorted_is(s);
    } else {
        let t = set.choose();
        let rest = set.remove(t);
        lemma_sorted(rest);
        let s = sorted(rest);
        assert(!s.contains(t)) by {
            if s.contains(t) {
                assert(s.to_set().contains(t));
            }
        }
        let r = lemma_ascending_insert(s, t);
        assert(r.to_set() =~= set);
        lemma_sorted_is(r);
    }
    lemma_ascending_distinct(sorted(set));
    sorted(set).unique_seq_to_set();
}

/// A map from strings to values, its entries in ascending order of their keys.
#[derive(Debug, PartialEq)]
pub struct StrMap<V> {
    entries: Vec<(String, V)>,
}

spec fn keys_of<V>(entries: Seq<(String, V)>) -> Seq<Text> {
    entries.map_values(|e: (String, V)| e.0@)
}

spec fn map_of<V: DeepView>(entries: Seq<(String, V)>) -> Map<Text, V::V> {
    Map::new(
        |k: Text| keys_of(entries).contains(k),
        |k: Text| entries[keys_of(entries).index_of(k)].1.deep_view(),
    )
}

impl<V: DeepView> DeepView for StrMap<V> {
    type V = Map<Text, V::V>;

    closed spec fn deep_view(&self) -> Map<Text, V::V> {
        map_of(self.entries@)
    }
}

impl<V: DeepView> View for StrMap<V> {
    type V = Map<Text, V::V>;

    open spec fn view(&self) -> Map<Text, V::V> {
        self.deep_view()
    }
}

/// What the entries say: the keys, and of each key the value that stands beside it.
proof fn lemma_map_of<V: DeepView>(entries: Seq<(String, V)>)
    requires
        ascending(keys_of(entries)),
    ensures
        map_of(entries).dom() == keys_of(entries).to_set(),
        sorted(map_of(entries).dom()) == keys_of(entries),
        map_of(entries).dom().finite(),
        map_of(entries).dom().len() == entries.len(),
        forall|i: int|
            0 <= i < entries.len() ==> map_of(entries).contains_key(#[trigger] entries[i].0@)
                && map_of(entries)[entries[i].0@] == entries[i].1.deep_view(),
{
    let keys = keys_of(entries);
    lemma_ascending_distinct(keys);
    assert(map_of(entries).dom() =~= keys.to_set());
    lemma_sorted_is(keys);
    keys.unique_seq_to_set();
    assert forall|i: int| 0 <= i < entries.len() implies map_of(entries).contains_key(
        #[trigger] entries[i].0@,
    ) && map_of(entries)[entries[i].0@] == entries[i].1.deep_view() by {
        assert(keys[i] == entries[i].0@);
        let j = keys.index_of(keys[i]);
        assert(keys[j] == keys[i]);
    }
}

impl<V> StrMap<V> {
    #[verifier::type_invariant]
    spec fn in_order(self) -> bool {
        ascending(keys_of(self.entries@))
    }
}

impl<V: DeepView> StrMap<V> {
    /// The empty map.
    pub fn new() -> (map: Self)
        ensures
            map@ == Map::<Text, V::V>::empty(),
    {
        let entries: Vec<(String, V)> = Vec::new();
        let map = StrMap { entries };
        assert(map@ =~= Map::<Text, V::V>::empty());
        map
    }

    /// How many keys the map holds.
    pub fn len(&self) -> (n: usize)
        ensures
            n == self@.dom().len(),
            n == sorted(self@.dom()).len(),
            self@.dom().finite(),
    {
        proof {
            use_type_invariant(self);
            lemma_map_of(self.entries@);
        }
        self.entries.len()
    }

    /// Whether the map holds no key.
    pub fn is_empty(&self) -> (empty: bool)
        ensures
            empty == (self@ == Map::<Text, V::V>::empty()),
            empty == (self@.dom().len() == 0),
    {
        proof {
            use_type_invariant(self);
            lemma_map_of(self.entries@);
            if self.entries@.len() == 0 {
                assert(self@ =~= Map::<Text, V::V>::empty());
            } else {
                assert(self@.contains_key(self.entries@[0].0@));
            }
        }
        self.entries.len() == 0
    }

    /// Where `key` stands, or where it would have to be put in.
    fn find(&self, key: &str) -> (at: (bool, usize))
        ensures
            at.1 <= self.entries@.len(),
            at.0 ==> at.1 < self.entries@.len() && self.entries@[at.1 as int].0@ == key@,
            !at.0 ==> !keys_of(self.entries@).contains(key@),
            forall|i: int| 0 <= i < at.1 ==> text_lt(#[trigger] self.entries@[i].0@, key@),
            !at.0 ==> forall|i: int|
                at.1 <= i < self.entries@.len() ==> text_lt(key@, #[trigger] self.entries@[i].0@),
    {
        proof {
            use_type_invariant(self);
        }
        let ghost keys = keys_of(self.entries@);
        let mut low: usize = 0;
        let mut high: usize = self.entries.len();
        while low < high
            invariant
                low <= high <= self.entries@.len(),
                keys == keys_of(self.entries@),
                ascending(keys),
                forall|i: int| 0 <= i < low ==> text_lt(#[trigger] keys[i], key@),
                forall|i: int| high <= i < keys.len() ==> text_lt(key@, #[trigger] keys[i]),
            decreases high - low,
        {
            let mid: usize = low + (high - low) / 2;
            let here: &str = self.entries[mid].0.as_str();
            assert(keys[mid as int] == here@);
            if str_lt(here, key) {
                proof {
                    assert forall|i: int| 0 <= i < mid + 1 implies text_lt(#[trigger] keys[i], key@) by {
                        if i < mid {
                            lemma_text_lt_transitive(keys[i], keys[mid as int], key@);
                        }
                    }
                }
                low = mid + 1;
            } else if str_lt(key, here) {
                proof {
                    assert forall|i: int| mid <= i < keys.len() implies text_lt(key@, #[trigger] keys[i]) by {
                        if i > mid {
                            lemma_text_lt_transitive(key@, keys[mid as int], keys[i]);
                        }
                    }
                }
                high = mid;
            } else {
                proof {
                    lemma_text_lt_total(here@, key@);
                    assert forall|i: int| 0 <= i < mid implies text_lt(#[trigger] self.entries@[i].0@, key@) by {
                        assert(keys[i] == self.entries@[i].0@);
                        assert(text_lt(keys[i], keys[mid as int]));
                    }
                }
                return (true, mid);
            }
        }
        proof {
            if keys.contains(key@) {
                let i = choose|i: int| 0 <= i < keys.len() && keys[i] == key@;
                lemma_text_lt_irreflexive(key@);
            }
            assert forall|i: int| 0 <= i < low implies text_lt(#[trigger] self.entries@[i].0@, key@) by {
                assert(keys[i] == self.entries@[i].0@);
            }
            assert forall|i: int| low <= i < self.entries@.len() implies text_lt(key@, #[trigger] self.entries@[i].0@) by {
                assert(keys[i] == self.entries@[i].0@);
            }
        }
        (false, low)
    }

    /// The value under `key`.
    pub fn get(&self, key: &str) -> (value: Option<&V>)
        ensures
            match value {
                Some(v) => self@.contains_key(key@) && v.deep_view() == self@[key@],
                None => !self@.contains_key(key@),
            },
    {
        let (found, at) = self.find(key);
        proof {
            use_type_invariant(self);
            lemma_map_of(self.entries@);
        }
        if found {
            Some(&self.entries[at].1)
        } else {
            None
        }
    }

    /// Whether `key` is in the map.
    pub fn contains_key(&self, key: &str) -> (present: bool)
        ensures
            present == self@.contains_key(key@),
    {
        self.get(key).is_some()
    }

    /// The key at position `i` of the ascending order.
    pub fn key_at(&self, i: usize) -> (key: &String)
        requires
            i < sorted(self@.dom()).len(),
        ensures
            key@ == sorted(self@.dom())[i as int],
            self@.contains_key(key@),
    {
        proof {
            use_type_invariant(self);
            lemma_map_of(self.entries@);
            assert(keys_of(self.entries@)[i as int] == self.entries@[i as int].0@);
        }
        &self.entries[i].0
    }

    /// The value of the key at position `i` of the ascending order.
    pub fn value_at(&self, i: usize) -> (value: &V)
        requires
            i < sorted(self@.dom()).len(),
        ensures
            self@.contains_key(sorted(self@.dom())[i as int]),
            value.deep_view() == self@[sorted(self@.dom())[i as int]],
    {
        proof {
            use_type_invariant(self);
            lemma_map_of(self.entries@);
            assert(keys_of(self.entries@)[i as int] == self.entries@[i as int].0@);
        }
        &self.entries[i].1
    }

    /// Puts `value` under `key`, in place of what stood there.
    pub fn insert(&mut self, key: String, value: V)
        ensures
            final(self)@ == old(self)@.insert(key@, value.deep_view()),
    {
        let (found, at) = self.find(key.as_str());
        let mut entries: Vec<(String, V)> = Vec::new();
        proof {
            use_type_invariant(&*self);
            lemma_map_of(self.entries@);
        }
        let ghost before = self.entries@;
        std::mem::swap(&mut entries, &mut self.entries);
        let ghost k = key@;
        let ghost v = value.deep_view();
        if found {
            entries.set(at, (key, value));
        } else {
            entries.insert(at, (key, value));
        }
        proof {
            let keys = keys_of(entries@);
            let keys_before = keys_of(before);
            if found {
                assert(keys =~= keys_before);
            } else {
                assert(keys =~= keys_before.insert(at as int, k));
                assert forall|i: int, j: int| 0 <= i < j < keys.len() implies #[trigger] text_lt(keys[i], keys[j]) by {
                    if i < at && j > at {
                        assert(keys[i] == before[i].0@);
                        assert(keys[j] == before[j - 1].0@);
                        assert(keys_before[i] == before[i].0@);
                        assert(keys_before[j - 1] == before[j - 1].0@);
                    } else if i < at && j == at {
                        assert(keys[i] == before[i].0@);
                    } else if i == at {
                        assert(keys[j] == before[j - 1].0@);
                    } else if j < at {
                        assert(keys[i] == keys_before[i] && keys[j] == keys_before[j]);
                    } else {
                        assert(keys[i] == keys_before[i - 1] && keys[j] == keys_before[j - 1]);
                    }
                }
            }
            lemma_map_of(entries@);
            let after = map_of(entries@);
            let want = map_of(before).insert(k, v);
            assert(entries@[at as int].0@ == k);
            assert forall|t: Text| #[trigger] after.contains_key(t) implies want.contains_key(t) && want[t] == after[t] by {
                let i = choose|i: int| 0 <= i < keys.len() && keys[i] == t;
                assert(entries@[i].0@ == t);
                if i != at {
                    let j = if found || i < at { i } else { i - 1 };
                    assert(before[j] == entries@[i]);
                    assert(keys_before[j] == t);
                    lemma_ascending_distinct(keys);
                    assert(keys[at as int] == k);
                    assert(t != k);
                }
            }
            assert forall|t: Text| #[trigger] want.contains_key(t) implies after.contains_key(t) by {
                if t != k {
                    let j = choose|j: int| 0 <= j < keys_before.len() && keys_before[j] == t;
                    let i = if found || j < at { j } else { j + 1 };
                    assert(keys[i] == t);
                    assert(entries@[i].0@ == t);
                }
            }
            assert(after =~= want);
        }
        self.entries = entries;
    }

    /// Takes `key` out of the map, with its value.
    pub fn remove(&mut self, key: &str) -> (taken: Option<V>)
        ensures
            final(self)@ == old(self)@.remove(key@),
            match taken {
                Some(v) => old(self)@.contains_key(key@) && v.deep_view() == old(self)@[key@],
                None => !old(self)@.contains_key(key@),
            },
    {
        let (found, at) = self.find(key);
        proof {
            use_type_invariant(&*self);
            lemma_map_of(self.entries@);
        }
        if !found {
            assert(self@.remove(key@) =~= self@);
            return None;
        }
        let mut entries: Vec<(String, V)> = Vec::new();
        let ghost before = self.entries@;
        std::mem::swap(&mut entries, &mut self.entries);
        let (_, value) = entries.remove(at);
        proof {
            let keys = keys_of(entries@);
            let keys_before = keys_of(before);
            lemma_ascending_distinct(keys_before);
            assert(keys =~= keys_before.remove(at as int));
            assert(keys_before[at as int] == key@);
            assert(ascending(keys));
            lemma_map_of(entries@);
            let after = map_of(entries@);
            let want = map_of(before).remove(key@);
            assert forall|t: Text| #[trigger] after.contains_key(t) implies want.contains_key(t) && want[t] == after[t] by {
                let i = choose|i: int| 0 <= i < keys.len() && keys[i] == t;
                let j = if i < at { i } else { i + 1 };
                assert(entries@[i].0@ == t);
                assert(before[j] == entries@[i]);
                assert(keys_before[j] == t);
            }
            assert forall|t: Text| #[trigger] want.contains_key(t) implies after.contains_key(t) by {
                let j = choose|j: int| 0 <= j < keys_before.len() && keys_before[j] == t;
                let i = if j < at { j } else { j - 1 };
                assert(keys[i] == t);
            }
            assert(after =~= want);
        }
        self.entries = entries;
        Some(value)
    }

    /// The entries of the map, in ascending order of their keys.
    pub fn into_entries(self) -> (entries: Vec<(String, V)>)
        ensures
            entries@.len() == sorted(self@.dom()).len(),
            self@.dom().finite(),
            forall|i: int|
                0 <= i < entries@.len() ==> {
                    &&& (#[trigger] entries@[i]).0@ == sorted(self@.dom())[i]
                    &&& self@.contains_key(entries@[i].0@)
                    &&& entries@[i].1.deep_view() == self@[entries@[i].0@]
                },
    {
        proof {
            use_type_invariant(&self);
            lemma_map_of(self.entries@);
            assert forall|i: int| 0 <= i < self.entries@.len() implies (#[trigger] self.entries@[i]).0@
                == sorted(self@.dom())[i] by {
                assert(keys_of(self.entries@)[i] == self.entries@[i].0@);
            }
        }
        self.entries
    }
}

/// In a run without duplicates, no item stands among the earlier ones.
pub proof fn lemma_not_before(names: Seq<Text>, i: int)
    requires
        0 <= i < names.len(),
        names.no_duplicates(),
    ensures
        !names.take(i).contains(names[i]),
{
    let earlier = names.take(i);
    if earlier.contains(names[i]) {
        let j = choose|j: int| 0 <= j < earlier.len() && earlier[j] == names[i];
        assert(names[j] == names[i]);
    }
}

/// One key more of an ordered run of keys.
pub proof fn lemma_prefix_step(keys: Seq<Text>, i: int)
    requires
        0 <= i < keys.len(),
    ensures
        forall|k: Text| #[trigger]
            keys.take(i + 1).contains(k) <==> (keys.take(i).contains(k) || k == keys[i]),
{
    assert forall|k: Text| #[trigger]
        keys.take(i + 1).contains(k) <==> (keys.take(i).contains(k) || k == keys[i]) by {
        if keys.take(i).contains(k) {
            let j = choose|j: int| 0 <= j < i && keys.take(i)[j] == k;
            assert(keys.take(i + 1)[j] == k);
        }
        if keys.take(i + 1).contains(k) {
            let next = keys.take(i + 1);
            let j = choose|j: int| 0 <= j < next.len() && next[j] == k;
            if j < i {
                assert(keys.take(i)[j] == k);
            }
        }
        assert(keys.take(i + 1)[i] == keys[i]);
    }
}

/// The whole run of ordered keys holds the keys.
pub proof fn lemma_prefix_whole(dom: Set<Text>)
    requires
        dom.finite(),
    ensures
        forall|k: Text| #[trigger]
            sorted(dom).take(sorted(dom).len() as int).contains(k) <==> dom.contains(k),
        forall|k: Text| #[trigger] sorted(dom).contains(k) <==> dom.contains(k),
{
    let keys = sorted(dom);
    lemma_sorted(dom);
    assert(keys.take(keys.len() as int) =~= keys);
    assert forall|k: Text| #[trigger] keys.contains(k) <==> dom.contains(k) by {
        assert(keys.to_set().contains(k) <==> dom.contains(k));
    }
}

/// A set of strings, kept in order.
#[derive(Debug, PartialEq)]
pub struct StrSet {
    map: StrMap<bool>,
}

impl DeepView for StrSet {
    type V = Set<Text>;

    closed spec fn deep_view(&self) -> Set<Text> {
        self.map@.dom()
    }
}

impl View for StrSet {
    type V = Set<Text>;

    open spec fn view(&self) -> Set<Text> {
        self.deep_view()
    }
}

impl StrSet {
    /// The empty set.
    pub fn new() -> (set: Self)
        ensures
            set@ == Set::<Text>::empty(),
    {
        let set = StrSet { map: StrMap::new() };
        assert(set@ =~= Set::<Text>::empty());
        set
    }

    /// Puts a string into the set.
    pub fn insert(&mut self, item: String)
        ensures
            final(self)@ == old(self)@.insert(item@),
    {
        let ghost before = self@;
        let ghost added = item@;
        self.map.insert(item, true);
        assert(self@ =~= before.insert(added));
    }

    /// Whether a string is in the set.
    pub fn contains(&self, item: &str) -> (present: bool)
        ensures
            present == self@.contains(item@),
    {
        self.map.contains_key(item)
    }

    /// How many strings the set holds.
    pub fn len(&self) -> (n: usize)
        ensures
            n == self@.len(),
            n == sorted(self@).len(),
            self@.finite(),
    {
        self.map.len()
    }

    /// The string at position `i` of the ascending order.
    pub fn at(&self, i: usize) -> (item: &String)
        requires
            i < sorted(self@).len(),
        ensures
            item@ == sorted(self@)[i as int],
            self@.contains(item@),
    {
        self.map.key_at(i)
    }

    /// The strings of the set, in ascending order.
    pub fn to_vec(&self) -> (items: Vec<String>)
        ensures
            items.deep_view() == sorted(self@),
            self@.finite(),
    {
        let mut items: Vec<String> = Vec::new();
        let n: usize = self.len();
        let mut i: usize = 0;
        while i < n
            invariant
                i <= n == sorted(self@).len(),
                items.deep_view() == sorted(self@).take(i as int),
            decreases n - i,
        {
            let ghost before = items.deep_view();
            items.push(self.at(i).clone());
            assert(items.deep_view() =~= before.push(sorted(self@)[i as int]));
            assert(sorted(self@).take(i + 1) =~= sorted(self@).take(i as int).push(sorted(self@)[i as int]));
            i += 1;
        }
        assert(sorted(self@).take(n as int) =~= sorted(self@));
        items
    }

    /// Puts every string of a list into the set.
    pub fn extend(&mut self, items: &Vec<String>)
        ensures
            final(self)@ == old(self)@.union(items.deep_view().to_set()),
    {
        let ghost all = items.deep_view();
        let ghost before = self@;
        let mut i: usize = 0;
        assert(before =~= before.union(all.take(0).to_set()));
        while i < items.len()
            invariant
                i <= items@.len(),
                all == items.deep_view(),
                self@ == before.union(all.take(i as int).to_set()),
            decreases items@.len() - i,
        {
            self.insert(items[i].clone());
            proof {
                lemma_prefix_step(all, i as int);
                assert forall|k: Text| self@.contains(k) <==> before.union(all.take(i + 1).to_set()).contains(k) by {
                    assert(all.take(i + 1).to_set().contains(k) <==> all.take(i + 1).contains(k));
                    assert(all.take(i as int).to_set().contains(k) <==> all.take(i as int).contains(k));
                }
                assert(self@ =~= before.union(all.take(i + 1).to_set()));
            }
            i += 1;
        }
        assert(all.take(items@.len() as int) =~= all);
    }
}

/// A map without the given keys.
pub open spec fn without<V>(map: Map<Text, V>, gone: Set<Text>) -> Map<Text, V> {
    Map::new(|k: Text| map.contains_key(k) && !gone.contains(k), |k: Text| map[k])
}

impl<V: DeepView> StrMap<V> {
    /// Puts the entries of another map into this one, in place of what stood
    /// under their keys.
    pub fn extend(&mut self, other: StrMap<V>)
        ensures
            final(self)@ == old(self)@.union_prefer_right(other@),
    {
        let ghost before = self@;
        let ghost keys = sorted(other@.dom());
        let entries = other.into_entries();
        let ghost all = entries@;
        for entry in it: entries
            invariant
                it.seq() == all,
                keys == sorted(other@.dom()),
                all.len() == keys.len(),
                forall|i: int|
                    0 <= i < all.len() ==> {
                        &&& (#[trigger] all[i]).0@ == keys[i]
                        &&& other@.contains_key(all[i].0@)
                        &&& all[i].1.deep_view() == other@[all[i].0@]
                    },
                forall|k: Text| #[trigger]
                    self@.contains_key(k) <==> before.contains_key(k) || keys.take(it.index()).contains(k),
                forall|k: Text| #[trigger]
                    self@.contains_key(k) ==> self@[k] == (if keys.take(it.index()).contains(k) {
                        other@[k]
                    } else {
                        before[k]
                    }),
        {
            proof {
                lemma_prefix_step(keys, it.index());
                assert(all[it.index()] == entry);
            }
            let (key, value) = entry;
            self.insert(key, value);
        }
        proof {
            lemma_prefix_whole(other@.dom());
            assert(self@ =~= before.union_prefer_right(other@));
        }
    }

    /// Takes the given keys out of the map.
    pub fn remove_all(&mut self, gone: &StrSet)
        ensures
            final(self)@ == without(old(self)@, gone@),
    {
        let ghost before = self@;
        let n: usize = gone.len();
        let ghost keys = sorted(gone@);
        let mut i: usize = 0;
        while i < n
            invariant
                i <= n == keys.len(),
                keys == sorted(gone@),
                forall|k: Text| #[trigger]
                    self@.contains_key(k) <==> before.contains_key(k) && !keys.take(i as int).contains(k),
                forall|k: Text| #[trigger] self@.contains_key(k) ==> self@[k] == before[k],
            decreases n - i,
        {
            proof {
                lemma_prefix_step(keys, i as int);
            }
            let _ = self.remove(gone.at(i).as_str());
            i += 1;
        }
        proof {
            lemma_prefix_whole(gone@);
            assert(self@ =~= without(before, gone@));
        }
    }
}

} // verus!
