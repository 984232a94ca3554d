//! What a sync of a whole source does to what was there.

use crate::model::{Dup, Same};
use vstd::prelude::*;

verus! {

/// What a sync of a whole source does to what was there.
#[derive(Clone, Copy, Debug, PartialEq, Eq, Structural)]
pub enum SyncMode {
    /// What was there goes.
    Replace,
    /// What was there stays, under what comes.
    Merge,
}

impl DeepView for SyncMode {
    type V = SyncMode;

    open spec fn deep_view(&self) -> SyncMode {
        *self
    }
}

impl Dup for SyncMode {
    fn dup(&self) -> (copy: Self) {
        *self
    }
}

impl Same for SyncMode {
    fn same(&self, other: &Self) -> (equal: bool) {
        *self == *other
    }
}

impl Default for SyncMode {
    fn default() -> (value: Self)
        ensures
            value == SyncMode::Replace,
    {
        SyncMode::Replace
    }
}

} // verus!
