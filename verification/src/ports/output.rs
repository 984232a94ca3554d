//! What the script of an endpoint brings back.

use vstd::prelude::*;

verus! {

/// Why the script of an endpoint failed.
#[derive(Clone, Debug, PartialEq, Eq)]
pub struct OutputError {
    pub message: String,
}

} // verus!
