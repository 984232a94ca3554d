//! What holds of how a checkout is brought up to date.

#[allow(unused_imports)]
use crate::application::credentials::credential_failure;
#[allow(unused_imports)]
use crate::application::projects::{first_step, step_after, step_error, ProjectEvent, StepModel};
#[allow(unused_imports)]
use crate::domain::project::GitProjectModel;
#[allow(unused_imports)]
use crate::text::{decimal_text, Text};
use vstd::prelude::*;

verus! {

/// A credential is resolved first, where the project has one; then comes the checkout, and
/// after it the virtualenv, where the project asks for one.
pub proof fn law_the_steps_follow_the_project(project: GitProjectModel, event: ProjectEvent)
    ensures
        project.credential_id is Some ==> first_step(project) == StepModel::Resolve(project.credential_id->0),
        project.credential_id is None ==> first_step(project) == StepModel::Checkout,
        event is Credentials ==> step_after(project, event) == StepModel::Checkout,
        event is Checkout && project.python_venv ==> step_after(project, event) == StepModel::Virtualenv,
        event is Checkout && !project.python_venv ==> step_after(project, event) == StepModel::Done,
        event is Virtualenv ==> step_after(project, event) == StepModel::Done,
{
}

/// A step that failed or took too long ends the work, and says what it was; a step that
/// succeeded does not.
pub proof fn law_a_step_that_failed_says_why(project: GitProjectModel, event: ProjectEvent)
    ensures
        step_error(project, event) is None <==> {
            ||| event is Credentials && event->Credentials_0 is Ok
            ||| event is Checkout && event->Checkout_0 is Some && event->Checkout_0->0 is Ok
            ||| event is Virtualenv && event->Virtualenv_0 is Some && event->Virtualenv_0->0 is Ok
        },
        event is Credentials && event->Credentials_0 is Err ==> step_error(project, event) == Some(
            "credential '"@ + project.credential_id->0 + "': "@ + event->Credentials_0->Err_0.message@,
        ),
        event is Checkout && event->Checkout_0 is None ==> step_error(project, event) == Some(
            "git operation timed out after "@ + (decimal_text(project.timeout_seconds as nat) + "s"@),
        ),
        event is Checkout && event->Checkout_0 is Some && event->Checkout_0->0 is Err ==> step_error(project, event)
            == Some(event->Checkout_0->0->Err_0.message@),
        event is Virtualenv && event->Virtualenv_0 is None ==> step_error(project, event) == Some(
            "venv install timed out after "@ + (decimal_text(project.timeout_seconds as nat) + "s"@),
        ),
        event is Virtualenv && event->Virtualenv_0 is Some && event->Virtualenv_0->0 is Err ==> step_error(
            project,
            event,
        ) == Some("venv: "@ + event->Virtualenv_0->0->Err_0.message@),
{
}

/// A credential that cannot be resolved is named before what is wrong with it.
pub proof fn law_a_credential_that_failed_is_named(id: Text, message: Text)
    ensures
        credential_failure(id, message) == "credential '"@ + id + "': "@ + message,
{
}

} // verus!
