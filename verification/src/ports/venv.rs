//! The Python virtualenv of a project.

use vstd::prelude::*;

verus! {

/// Where virtualenvs live, in the directory of the checkouts. They live outside
/// the checkouts, since a pull resets those.
pub const VENVS_DIR: &'static str = ".venvs";

/// The key of a configuration under which a script is told of the directory of
/// the virtualenv's programs.
pub const VENV_BIN_CONFIG_KEY: &'static str = "python_venv_bin";

/// What came of bringing a virtualenv up to date.
#[derive(Clone, Copy, Debug, PartialEq, Eq, Structural)]
pub enum VenvOutcome {
    /// The requirements were installed.
    Installed,
    /// The requirements are those that were installed last.
    Unchanged,
    /// The checkout has no requirements.
    NoRequirements,
}

/// Why bringing a virtualenv up to date failed.
#[derive(Clone, Debug, PartialEq, Eq)]
pub struct VenvError {
    pub message: String,
}

} // verus!
