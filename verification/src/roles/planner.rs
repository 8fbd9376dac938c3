//! The planner's two roles: understanding and planning.
use vstd::prelude::*;

use super::context::Understanding;
use super::schemas::{max_items, max_items_spec};
use super::{checked, Role, RoleError};
use crate::domain::{TaskKind, WorkspacePolicy};

verus! {

/// Goal, repository and memory to an understanding.
#[derive(Debug, Clone, Copy, PartialEq, Eq, Structural)]
pub struct PlannerUnderstanding;

impl Role for PlannerUnderstanding {
    open spec fn key(&self) -> Seq<char> {
        "planner.understanding"@
    }

    open spec fn kind(&self) -> TaskKind {
        TaskKind::Understand
    }

    open spec fn policy(&self) -> WorkspacePolicy {
        WorkspacePolicy::ReadOnly
    }

    fn name(&self) -> (r: &'static str) {
        "planner.understanding"
    }

    fn task_kind(&self) -> (r: TaskKind) {
        TaskKind::Understand
    }

    fn workspace_policy(&self) -> (r: WorkspacePolicy) {
        WorkspacePolicy::ReadOnly
    }
}

/// What is made of an understanding and its refusal.
pub open spec fn understanding_checked(
    extracted: Result<Understanding, RoleError>,
    refusal: Option<String>,
    r: Result<Understanding, RoleError>,
) -> bool {
    match (extracted, refusal) {
        (Err(e), _) => r == Err::<Understanding, RoleError>(e),
        (Ok(_), Some(message)) => r matches Err(RoleError::Invalid {
            role,
            subject,
            message: m,
        }) && role@ == "planner.understanding"@ && subject@ == "understanding"@ && m
            == message,
        (Ok(v), None) => r == Ok::<Understanding, RoleError>(v),
    }
}

impl PlannerUnderstanding {
    /// What is made of an understanding that was extracted and read, given the
    /// refusal of its validation.
    pub fn checked(
        &self,
        extracted: Result<Understanding, RoleError>,
        refusal: Option<String>,
    ) -> (r: Result<Understanding, RoleError>)
        ensures
            understanding_checked(extracted, refusal, r),
    {
        checked(self.name(), "understanding", extracted, refusal)
    }
}

/// Understanding and answers to a plan of at most `max_tasks` tasks.
#[derive(Debug, Clone, Copy, PartialEq, Eq, Structural)]
pub struct PlannerPlan {
    pub max_tasks: usize,
}

/// What is made of a plan and the validator's errors.
pub open spec fn plan_checked<T>(
    extracted: Result<T, RoleError>,
    errors: Vec<String>,
    r: Result<T, RoleError>,
) -> bool {
    match extracted {
        Err(e) => r == Err::<T, RoleError>(e),
        Ok(plan) => if errors@.len() == 0 {
            r == Ok::<T, RoleError>(plan)
        } else {
            r matches Err(RoleError::InvalidPlan { role, errors: refused }) && role@
                == "planner.plan"@ && refused == errors
        },
    }
}

impl PlannerPlan {
    /// A planner with a limit on the number of tasks.
    pub fn new(max_tasks: usize) -> (r: PlannerPlan)
        ensures
            r == (PlannerPlan { max_tasks }),
    {
        PlannerPlan { max_tasks }
    }

    /// The number of tasks that the schema of the answer allows.
    pub fn schema_max_items(&self) -> (r: usize)
        ensures
            r == max_items_spec(self.max_tasks),
    {
        max_items(self.max_tasks)
    }

    /// What is made of a plan that was extracted and read, given the validator's
    /// errors: an extraction error stays, and any error of the validator refuses
    /// the plan.
    pub fn checked<T>(&self, extracted: Result<T, RoleError>, errors: Vec<String>) -> (r: Result<
        T,
        RoleError,
    >)
        ensures
            plan_checked(extracted, errors, r),
    {
        match extracted {
            Err(e) => Err(e),
            Ok(plan) => if errors.len() == 0 {
                Ok(plan)
            } else {
                Err(RoleError::InvalidPlan { role: self.name(), errors })
            },
        }
    }
}

impl Role for PlannerPlan {
    open spec fn key(&self) -> Seq<char> {
        "planner.plan"@
    }

    open spec fn kind(&self) -> TaskKind {
        TaskKind::Plan
    }

    open spec fn policy(&self) -> WorkspacePolicy {
        WorkspacePolicy::ReadOnly
    }

    fn name(&self) -> (r: &'static str) {
        "planner.plan"
    }

    fn task_kind(&self) -> (r: TaskKind) {
        TaskKind::Plan
    }

    fn workspace_policy(&self) -> (r: WorkspacePolicy) {
        WorkspacePolicy::ReadOnly
    }
}

// ---------------------------------------------------------------------------
// Laws
// ---------------------------------------------------------------------------
/// An understanding passes exactly when it could be read and was not refused; an
/// extraction error stays what it is.
pub proof fn law_a_refused_understanding_is_an_error(
    extracted: Result<Understanding, RoleError>,
    refusal: Option<String>,
    r: Result<Understanding, RoleError>,
)
    requires
        understanding_checked(extracted, refusal, r),
    ensures
        r is Ok <==> extracted is Ok && refusal is None,
        r is Ok ==> r == extracted,
        extracted is Err ==> r == extracted,
        extracted is Ok && refusal is Some ==> (r matches Err(error) && (error
            matches RoleError::Invalid { message, .. } && Some(message) == refusal)),
{
}

/// A plan passes exactly when it could be read and the validator found nothing; all
/// that it found is passed on.
pub proof fn law_a_plan_with_errors_is_refused<T>(
    extracted: Result<T, RoleError>,
    errors: Vec<String>,
    r: Result<T, RoleError>,
)
    requires
        plan_checked(extracted, errors, r),
    ensures
        r is Ok <==> extracted is Ok && errors@.len() == 0,
        r is Ok ==> r == extracted,
        extracted is Err ==> r == extracted,
        extracted is Ok && errors@.len() > 0 ==> (r matches Err(error) && (error
            matches RoleError::InvalidPlan { errors: refused, .. } && refused == errors)),
{
}

/// Both roles of the planner only read.
pub proof fn law_planners_only_read(understanding: PlannerUnderstanding, plan: PlannerPlan)
    ensures
        understanding.policy() == WorkspacePolicy::ReadOnly && plan.policy()
            == WorkspacePolicy::ReadOnly,
        understanding.kind() == TaskKind::Understand && plan.kind() == TaskKind::Plan,
{
}

} // verus!
