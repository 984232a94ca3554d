//! Changes to the directory of the configuration.

use crate::strmap::{StrMap, StrSet};
#[allow(unused_imports)]
use crate::text::Text;
use vstd::prelude::*;

verus! {

/// A change to the directory of the configuration, as one unit.
#[derive(Debug, PartialEq)]
pub struct ConfigChange {
    /// The contents of the files that are written, by name.
    pub write: StrMap<String>,
    /// The files that are deleted.
    pub delete: StrSet,
    /// Also delete every known file that is not written.
    pub prune: bool,
}

/// What a [`ConfigChange`] holds.
#[verifier::ext_equal]
pub struct ConfigChangeModel {
    pub write: Map<Text, Text>,
    pub delete: Set<Text>,
    pub prune: bool,
}

impl DeepView for ConfigChange {
    type V = ConfigChangeModel;

    open spec fn deep_view(&self) -> ConfigChangeModel {
        ConfigChangeModel { write: self.write@, delete: self.delete@, prune: self.prune }
    }
}

impl Default for ConfigChange {
    /// The change that changes nothing.
    fn default() -> (change: Self)
        ensures
            change.deep_view() == (ConfigChangeModel {
                write: Map::empty(),
                delete: Set::empty(),
                prune: false,
            }),
    {
        ConfigChange { write: StrMap::new(), delete: StrSet::new(), prune: false }
    }
}

impl ConfigChange {
    /// Writes the given files.
    pub fn writing(write: StrMap<String>) -> (change: Self)
        ensures
            change.deep_view() == (ConfigChangeModel { write: write@, delete: Set::empty(), prune: false }),
    {
        ConfigChange { write, delete: StrSet::new(), prune: false }
    }

    /// Deletes a file.
    pub fn deleting(name: &str) -> (change: Self)
        ensures
            change.deep_view() == (ConfigChangeModel {
                write: Map::empty(),
                delete: Set::empty().insert(name@),
                prune: false,
            }),
    {
        let mut delete = StrSet::new();
        delete.insert(name.to_owned());
        ConfigChange { write: StrMap::new(), delete, prune: false }
    }

    /// Whether nothing is changed.
    pub fn is_empty(&self) -> (empty: bool)
        ensures
            empty == (self.deep_view() == (ConfigChangeModel {
                write: Map::empty(),
                delete: Set::empty(),
                prune: false,
            })),
    {
        let ghost model = self.deep_view();
        let no_writes = self.write.is_empty();
        let no_deletes = self.delete.len() == 0;
        proof {
            if no_writes {
                assert(model.write =~= Map::empty());
            }
            if no_deletes {
                assert(model.delete =~= Set::empty());
            }
        }
        no_writes && no_deletes && !self.prune
    }
}

} // verus!
