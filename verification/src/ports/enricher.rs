//! What an enricher brings back.

use vstd::prelude::*;

verus! {

/// Why an enricher failed.
#[derive(Clone, Debug, PartialEq, Eq)]
pub struct EnricherError {
    pub message: String,
}

} // verus!
