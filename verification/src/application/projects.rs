//! Bringing the checkout of a project up to date.

use crate::application::credentials::credential_error;
#[allow(unused_imports)]
use crate::application::credentials::credential_failure;
use crate::application::sync::record_attempt;
#[allow(unused_imports)]
use crate::application::sync::recorded;
#[allow(unused_imports)]
use crate::clock::{is_reading, nanos};
use crate::domain::project::GitProject;
#[allow(unused_imports)]
use crate::domain::project::GitProjectModel;
use crate::domain::sync_health::SyncHealthRegistry;
use crate::ports::git::GitError;
use crate::ports::secrets::SecretsError;
use crate::ports::venv::{VenvError, VenvOutcome};
#[allow(unused_imports)]
use crate::text::{decimal_text, Text};
use crate::text::{cat2, decimal};
use std::time::Instant;
use vstd::prelude::*;

verus! {

/// What is to be done next for a project.
#[derive(Clone, Debug, PartialEq, Eq)]
pub enum ProjectStep {
    /// Resolve the credential of this id.
    Resolve(String),
    /// Clone or update the checkout.
    Checkout,
    /// Bring the virtualenv up to date.
    Virtualenv,
    /// Nothing more.
    Done,
}

/// What a [`ProjectStep`] is.
pub enum StepModel {
    Resolve(Text),
    Checkout,
    Virtualenv,
    Done,
}

impl DeepView for ProjectStep {
    type V = StepModel;

    open spec fn deep_view(&self) -> StepModel {
        match self {
            ProjectStep::Resolve(id) => StepModel::Resolve(id@),
            ProjectStep::Checkout => StepModel::Checkout,
            ProjectStep::Virtualenv => StepModel::Virtualenv,
            ProjectStep::Done => StepModel::Done,
        }
    }
}

/// What came of a step. A step that did not end in time came to nothing.
pub enum ProjectEvent {
    /// Of resolving the credential.
    Credentials(Result<(), SecretsError>),
    /// Of the checkout.
    Checkout(Option<Result<(), GitError>>),
    /// Of the virtualenv.
    Virtualenv(Option<Result<VenvOutcome, VenvError>>),
}

/// What is done first for a project.
pub open spec fn first_step(project: GitProjectModel) -> StepModel {
    match project.credential_id {
        Some(id) => StepModel::Resolve(id),
        None => StepModel::Checkout,
    }
}

/// Why a project cannot be brought up to date, after what came of a step.
pub open spec fn step_error(project: GitProjectModel, event: ProjectEvent) -> Option<Text> {
    let seconds = decimal_text(project.timeout_seconds as nat) + "s"@;
    match event {
        ProjectEvent::Credentials(Ok(_)) => None,
        ProjectEvent::Credentials(Err(e)) => Some(credential_failure(project.credential_id->0, e.message@)),
        ProjectEvent::Checkout(None) => Some("git operation timed out after "@ + seconds),
        ProjectEvent::Checkout(Some(Ok(_))) => None,
        ProjectEvent::Checkout(Some(Err(e))) => Some(e.message@),
        ProjectEvent::Virtualenv(None) => Some("venv install timed out after "@ + seconds),
        ProjectEvent::Virtualenv(Some(Ok(_))) => None,
        ProjectEvent::Virtualenv(Some(Err(e))) => Some("venv: "@ + e.message@),
    }
}

/// What is done after a step that went well. Only a project that asks for one has a
/// virtualenv.
pub open spec fn step_after(project: GitProjectModel, event: ProjectEvent) -> StepModel {
    match event {
        ProjectEvent::Credentials(_) => StepModel::Checkout,
        ProjectEvent::Checkout(_) => if project.python_venv {
            StepModel::Virtualenv
        } else {
            StepModel::Done
        },
        ProjectEvent::Virtualenv(_) => StepModel::Done,
    }
}

/// What is to be done first for a project.
pub fn begin_project(project: &GitProject) -> (step: ProjectStep)
    ensures
        step.deep_view() == first_step(project.deep_view()),
{
    match &project.credential_id {
        Some(id) => ProjectStep::Resolve(id.clone()),
        None => ProjectStep::Checkout,
    }
}

/// What is to be done next for a project, after what came of a step; or why it cannot
/// be brought up to date.
pub fn next_step(project: &GitProject, event: ProjectEvent) -> (next: Result<ProjectStep, String>)
    requires
        event is Credentials ==> project.credential_id is Some,
    ensures
        match step_error(project.deep_view(), event) {
            Some(error) => next matches Err(e) && e@ == error,
            None => next matches Ok(step) && step.deep_view() == step_after(project.deep_view(), event),
        },
{
    let seconds = cat2(decimal(project.timeout_seconds).as_str(), "s");
    match event {
        ProjectEvent::Credentials(Ok(_)) => Ok(ProjectStep::Checkout),
        ProjectEvent::Credentials(Err(e)) => match &project.credential_id {
            Some(id) => Err(credential_error(id.as_str(), e.message.as_str())),
            None => Ok(ProjectStep::Checkout),
        },
        ProjectEvent::Checkout(None) => Err(cat2("git operation timed out after ", seconds.as_str())),
        ProjectEvent::Checkout(Some(Ok(_))) => if project.python_venv {
            Ok(ProjectStep::Virtualenv)
        } else {
            Ok(ProjectStep::Done)
        },
        ProjectEvent::Checkout(Some(Err(e))) => Err(e.message),
        ProjectEvent::Virtualenv(None) => Err(cat2("venv install timed out after ", seconds.as_str())),
        ProjectEvent::Virtualenv(Some(Ok(_))) => Ok(ProjectStep::Done),
        ProjectEvent::Virtualenv(Some(Err(e))) => Err(cat2("venv: ", e.message.as_str())),
    }
}

/// Records how bringing a project up to date went.
pub fn settle_project(health: &mut SyncHealthRegistry, project_id: &str, error: &Option<String>)
    ensures
        exists|now: Instant|
            is_reading(now) && recorded(old(health)@, final(health)@, project_id@, error.deep_view(), #[trigger] nanos(now)),
{
    record_attempt(health, project_id, error);
}

/// Whether a project is brought up to date when the service starts. A checkout that is
/// missing always is.
pub fn syncs_on_boot(project: &GitProject, checkout_exists: bool) -> (yes: bool)
    ensures
        yes == (project.sync_on_boot || !checkout_exists),
{
    project.sync_on_boot || !checkout_exists
}

} // verus!
