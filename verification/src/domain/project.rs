//! Git projects that scripts are checked out from.

use crate::model::{Dup, Same};
#[allow(unused_imports)]
use crate::text::Text;
use vstd::prelude::*;

verus! {

/// A git repository with scripts.
#[derive(Debug, PartialEq)]
pub struct GitProject {
    pub name: String,
    pub git_url: String,
    pub branch: String,
    pub credential_id: Option<String>,
    pub sync_interval_seconds: Option<u64>,
    pub schedule: Option<String>,
    pub timeout_seconds: u64,
    /// Whether the project has a virtual environment of its own.
    pub python_venv: bool,
    pub sync_on_boot: bool,
}

/// What a [`GitProject`] holds.
#[verifier::ext_equal]
pub struct GitProjectModel {
    pub name: Text,
    pub git_url: Text,
    pub branch: Text,
    pub credential_id: Option<Text>,
    pub sync_interval_seconds: Option<u64>,
    pub schedule: Option<Text>,
    pub timeout_seconds: u64,
    pub python_venv: bool,
    pub sync_on_boot: bool,
}

impl DeepView for GitProject {
    type V = GitProjectModel;

    open spec fn deep_view(&self) -> GitProjectModel {
        GitProjectModel {
            name: self.name.deep_view(),
            git_url: self.git_url.deep_view(),
            branch: self.branch.deep_view(),
            credential_id: self.credential_id.deep_view(),
            sync_interval_seconds: self.sync_interval_seconds.deep_view(),
            schedule: self.schedule.deep_view(),
            timeout_seconds: self.timeout_seconds.deep_view(),
            python_venv: self.python_venv.deep_view(),
            sync_on_boot: self.sync_on_boot.deep_view(),
        }
    }
}

impl Dup for GitProject {
    fn dup(&self) -> (copy: Self) {
        GitProject {
            name: self.name.dup(),
            git_url: self.git_url.dup(),
            branch: self.branch.dup(),
            credential_id: self.credential_id.dup(),
            sync_interval_seconds: self.sync_interval_seconds.dup(),
            schedule: self.schedule.dup(),
            timeout_seconds: self.timeout_seconds.dup(),
            python_venv: self.python_venv.dup(),
            sync_on_boot: self.sync_on_boot.dup(),
        }
    }
}

impl Same for GitProject {
    fn same(&self, other: &Self) -> (equal: bool) {
        self.name.same(&other.name)
            && self.git_url.same(&other.git_url)
            && self.branch.same(&other.branch)
            && self.credential_id.same(&other.credential_id)
            && self.sync_interval_seconds.same(&other.sync_interval_seconds)
            && self.schedule.same(&other.schedule)
            && self.timeout_seconds.same(&other.timeout_seconds)
            && self.python_venv.same(&other.python_venv)
            && self.sync_on_boot.same(&other.sync_on_boot)
    }
}

impl Clone for GitProject {
    fn clone(&self) -> (copy: Self)
        ensures
            copy.deep_view() == self.deep_view(),
    {
        self.dup()
    }
}

/// Whether a project is checked out on boot, where nothing says.
pub fn default_true() -> (yes: bool)
    ensures
        yes,
{
    true
}

/// The branch that is checked out where none is named.
pub fn default_branch() -> (branch: String)
    ensures
        branch@ == "main"@,
{
    "main".to_owned()
}

} // verus!
