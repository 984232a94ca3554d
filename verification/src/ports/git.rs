//! Checkouts of git projects.

use vstd::prelude::*;

verus! {

/// Why bringing a checkout up to date failed.
#[derive(Clone, Debug, PartialEq, Eq)]
pub struct GitError {
    pub message: String,
}

} // verus!
