//! Values that are known by what they hold: they can be compared and copied,
//! and comparing and copying go by the deep view.

use crate::strmap::StrMap;
#[allow(unused_imports)]
use crate::strmap::{lemma_sorted, sorted};
#[allow(unused_imports)]
use crate::text::Text;
use vstd::prelude::*;

verus! {

/// A value that can be copied by what it holds.
pub trait Dup: DeepView + Sized {
    /// Another value that holds the same.
    fn dup(&self) -> (copy: Self)
        ensures
            copy.deep_view() == self.deep_view(),
    ;
}

/// A value that can be compared by what it holds.
pub trait Same: Dup {
    /// Whether both hold the same.
    fn same(&self, other: &Self) -> (equal: bool)
        ensures
            equal == (self.deep_view() == other.deep_view()),
    ;
}

impl Dup for String {
    fn dup(&self) -> (copy: Self) {
        self.clone()
    }
}

impl Same for String {
    fn same(&self, other: &Self) -> (equal: bool) {
        *self == *other
    }
}

impl Dup for bool {
    fn dup(&self) -> (copy: Self) {
        *self
    }
}

impl Same for bool {
    fn same(&self, other: &Self) -> (equal: bool) {
        *self == *other
    }
}

impl Dup for u8 {
    fn dup(&self) -> (copy: Self) {
        *self
    }
}

impl Same for u8 {
    fn same(&self, other: &Self) -> (equal: bool) {
        *self == *other
    }
}

impl Dup for u16 {
    fn dup(&self) -> (copy: Self) {
        *self
    }
}

impl Same for u16 {
    fn same(&self, other: &Self) -> (equal: bool) {
        *self == *other
    }
}

impl Dup for u32 {
    fn dup(&self) -> (copy: Self) {
        *self
    }
}

impl Same for u32 {
    fn same(&self, other: &Self) -> (equal: bool) {
        *self == *other
    }
}

impl Dup for u64 {
    fn dup(&self) -> (copy: Self) {
        *self
    }
}

impl Same for u64 {
    fn same(&self, other: &Self) -> (equal: bool) {
        *self == *other
    }
}

impl Dup for usize {
    fn dup(&self) -> (copy: Self) {
        *self
    }
}

impl Same for usize {
    fn same(&self, other: &Self) -> (equal: bool) {
        *self == *other
    }
}

impl<T: Dup> Dup for Option<T> {
    fn dup(&self) -> (copy: Self) {
        match self {
            Some(a) => Some(a.dup()),
            None => None,
        }
    }
}

impl<T: Same> Same for Option<T> {
    fn same(&self, other: &Self) -> (equal: bool) {
        match (self, other) {
            (Some(a), Some(b)) => a.same(b),
            (None, None) => true,
            _ => false,
        }
    }
}

impl<T: Dup> Dup for Vec<T> {
    fn dup(&self) -> (copy: Self) {
        let mut copy: Vec<T> = Vec::new();
        let mut i: usize = 0;
        while i < self.len()
            invariant
                i <= self@.len(),
                copy@.len() == i,
                forall|j: int| 0 <= j < i ==> copy@[j].deep_view() == #[trigger] self@[j].deep_view(),
            decreases self@.len() - i,
        {
            copy.push(self[i].dup());
            i += 1;
        }
        assert(copy.deep_view() =~= self.deep_view());
        copy
    }
}

impl<T: Same> Same for Vec<T> {
    fn same(&self, other: &Self) -> (equal: bool) {
        if self.len() != other.len() {
            assert(self.deep_view().len() != other.deep_view().len());
            return false;
        }
        let mut i: usize = 0;
        while i < self.len()
            invariant
                i <= self@.len() == other@.len(),
                forall|j: int| 0 <= j < i ==> self.deep_view()[j] == other.deep_view()[j],
            decreases self@.len() - i,
        {
            if !self[i].same(&other[i]) {
                assert(self.deep_view()[i as int] != other.deep_view()[i as int]);
                return false;
            }
            assert(self.deep_view()[i as int] == other.deep_view()[i as int]);
            i += 1;
        }
        assert(self.deep_view() =~= other.deep_view());
        true
    }
}

impl<T: Dup> Dup for StrMap<T> {
    fn dup(&self) -> (copy: Self) {
        let mut copy: StrMap<T> = StrMap::new();
        let n: usize = self.len();
        let ghost keys = sorted(self@.dom());
        let mut i: usize = 0;
        while i < n
            invariant
                i <= n == keys.len(),
                keys == sorted(self@.dom()),
                forall|k: Text| #[trigger] copy@.contains_key(k) <==> keys.take(i as int).contains(k),
                forall|k: Text| #[trigger] copy@.contains_key(k) ==> self@.contains_key(k) && copy@[k] == self@[k],
            decreases n - i,
        {
            copy.insert(self.key_at(i).clone(), self.value_at(i).dup());
            assert(keys.take(i + 1) =~= keys.take(i as int).push(keys[i as int]));
            assert forall|k: Text| #[trigger] copy@.contains_key(k) <==> keys.take(i + 1).contains(k) by {
                if keys.take(i as int).contains(k) {
                    let j = choose|j: int| 0 <= j < i && keys.take(i as int)[j] == k;
                    assert(keys.take(i + 1)[j] == k);
                }
                assert(keys.take(i + 1)[i as int] == keys[i as int]);
            }
            i += 1;
        }
        proof {
            lemma_sorted(self@.dom());
            assert(keys.take(n as int) =~= keys);
            assert forall|k: Text| #[trigger] self@.contains_key(k) implies copy@.contains_key(k) by {
                assert(keys.to_set().contains(k));
            }
            assert(copy@ =~= self@);
        }
        copy
    }
}

impl<T: Same> Same for StrMap<T> {
    fn same(&self, other: &Self) -> (equal: bool) {
        if self.len() != other.len() {
            return false;
        }
        let n: usize = self.len();
        let ghost mine = sorted(self@.dom());
        let ghost theirs = sorted(other@.dom());
        let mut i: usize = 0;
        while i < n
            invariant
                i <= n == mine.len() == theirs.len(),
                mine == sorted(self@.dom()),
                theirs == sorted(other@.dom()),
                forall|j: int| 0 <= j < i ==> mine[j] == theirs[j] && self@[#[trigger] mine[j]] == other@[mine[j]],
            decreases n - i,
        {
            if *self.key_at(i) != *other.key_at(i) || !self.value_at(i).same(other.value_at(i)) {
                return false;
            }
            i += 1;
        }
        proof {
            lemma_sorted(self@.dom());
            lemma_sorted(other@.dom());
            assert(mine =~= theirs);
            assert forall|k: Text| #[trigger] self@.contains_key(k) implies self@[k] == other@[k] by {
                assert(mine.to_set().contains(k));
                let j = choose|j: int| 0 <= j < mine.len() && mine[j] == k;
                assert(mine[j] == k);
            }
            assert(self@ =~= other@);
        }
        true
    }
}

} // verus!
