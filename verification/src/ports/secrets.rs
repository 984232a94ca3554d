//! Credentials.

use vstd::prelude::*;

verus! {

/// Why resolving a credential failed.
#[derive(Clone, Debug, PartialEq, Eq)]
pub struct SecretsError {
    pub message: String,
}

} // verus!
