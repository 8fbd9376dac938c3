//! Roles: what the prompts that Kevin runs for itself are made of, and what is
//! made of the answers: planner (understanding, plan), clarifier, integrator and
//! summariser.
use vstd::prelude::*;

pub mod clarifier;
pub mod context;
pub mod integrator;
pub mod memory_block;
pub mod planner;
pub mod runner;
pub mod schemas;
pub mod summarizer;

use crate::domain::{FailureClass, Span, TaskKind, Usage, WorkerKind, WorkspacePolicy};
use crate::text::{cat, join, join_of, views};
use clarifier::Clarifier;
use context::{duration_text, human_duration, var_views, ValueView, Var};
use integrator::Integrator;
use planner::{PlannerPlan, PlannerUnderstanding};
use summarizer::Summarizer;

verus! {

/// What a role asks a worker to do: the two halves of the prompt and the JSON
/// schema that the answer must match.
#[derive(Debug, PartialEq, Eq)]
pub struct RoleRequest {
    /// Appended to the worker's system prompt.
    pub system: String,
    /// The message to the worker.
    pub user: String,
    /// JSON text of the schema, where the role wants one.
    pub schema: Option<String>,
}

/// One of Kevin's own prompts.
pub trait Role {
    spec fn key(&self) -> Seq<char>;

    spec fn kind(&self) -> TaskKind;

    spec fn policy(&self) -> WorkspacePolicy;

    /// Stable name.
    fn name(&self) -> (r: &'static str)
        ensures
            r@ == self.key(),
    ;

    /// Task kind recorded for the attempt that the role runs as.
    fn task_kind(&self) -> (r: TaskKind)
        ensures
            r == self.kind(),
    ;

    /// Whether the role's worker may write.
    fn workspace_policy(&self) -> (r: WorkspacePolicy)
        ensures
            r == self.policy(),
    ;
}

/// What is wrong with a structured answer.
#[derive(Debug, PartialEq, Eq)]
pub enum StructuredError {
    /// There is no JSON in the answer.
    Missing { message: String },
    /// The JSON is malformed.
    Malformed { message: String },
    /// The JSON violates the schema.
    SchemaViolation { errors: Vec<String> },
}

impl StructuredError {
    /// Whether the answer broke the schema.
    pub fn is_schema_violation(&self) -> (b: bool)
        ensures
            b == (self is SchemaViolation),
    {
        match self {
            StructuredError::SchemaViolation { .. } => true,
            _ => false,
        }
    }

    pub open spec fn shown(self) -> Seq<char> {
        match self {
            StructuredError::Missing { message } => message@,
            StructuredError::Malformed { message } => message@,
            StructuredError::SchemaViolation { errors } => "schema_violation: "@ + join_of(
                views(errors@),
                "; "@,
            ),
        }
    }

    /// What is wrong, in words.
    pub fn text(&self) -> (r: String)
        ensures
            r@ == self.shown(),
    {
        match self {
            StructuredError::Missing { message } => message.clone(),
            StructuredError::Malformed { message } => message.clone(),
            StructuredError::SchemaViolation { errors } => {
                let all = join(errors, "; ");
                cat("schema_violation: ", all.as_str())
            },
        }
    }
}

/// Everything that can go wrong around a role call.
#[allow(inconsistent_fields)]
#[derive(Debug, PartialEq, Eq)]
pub enum RoleError {
    /// No JSON, malformed JSON, or JSON that violates the schema.
    Output { role: &'static str, source: StructuredError },
    /// Valid JSON that is not of the role's type.
    Parse { role: &'static str, message: String },
    /// A value that fails its own validation.
    Invalid { role: &'static str, subject: &'static str, message: String },
    /// A plan that the validator refused.
    InvalidPlan { role: &'static str, errors: Vec<String> },
    /// The call did not finish in time.
    Timeout { role: &'static str, timeout: Span },
    /// No such worker.
    WorkerUnavailable { role: &'static str, worker: WorkerKind },
    /// No such model on that worker.
    UnknownModel { role: &'static str, alias: String },
    /// The worker could not be started.
    Spawn { role: &'static str, source: String },
    /// The worker ran and failed.
    WorkerFailed { role: &'static str, class: FailureClass, message: String, usage: Usage },
}

impl RoleError {
    pub open spec fn schema_violation(self) -> bool {
        self matches RoleError::Output { source, .. } && source is SchemaViolation
    }

    /// Whether the answer broke the schema, the one case that is repaired.
    pub fn is_schema_violation(&self) -> (b: bool)
        ensures
            b == self.schema_violation(),
    {
        match self {
            RoleError::Output { source, .. } => source.is_schema_violation(),
            _ => false,
        }
    }

    pub open spec fn role_spec(self) -> &'static str {
        match self {
            RoleError::Output { role, .. } => role,
            RoleError::Parse { role, .. } => role,
            RoleError::Invalid { role, .. } => role,
            RoleError::InvalidPlan { role, .. } => role,
            RoleError::Timeout { role, .. } => role,
            RoleError::WorkerUnavailable { role, .. } => role,
            RoleError::UnknownModel { role, .. } => role,
            RoleError::Spawn { role, .. } => role,
            RoleError::WorkerFailed { role, .. } => role,
        }
    }

    /// The role that produced the error.
    pub fn role(&self) -> (r: &'static str)
        ensures
            r == self.role_spec(),
    {
        match self {
            RoleError::Output { role, .. } => role,
            RoleError::Parse { role, .. } => role,
            RoleError::Invalid { role, .. } => role,
            RoleError::InvalidPlan { role, .. } => role,
            RoleError::Timeout { role, .. } => role,
            RoleError::WorkerUnavailable { role, .. } => role,
            RoleError::UnknownModel { role, .. } => role,
            RoleError::Spawn { role, .. } => role,
            RoleError::WorkerFailed { role, .. } => role,
        }
    }

    /// The structured-output error behind the error, if any.
    pub fn structured(&self) -> (r: Option<&StructuredError>)
        ensures
            r == (match *self {
                RoleError::Output { source, .. } => Some(&source),
                _ => None,
            }),
    {
        match self {
            RoleError::Output { source, .. } => Some(source),
            _ => None,
        }
    }

    pub open spec fn spent(self) -> Usage {
        match self {
            RoleError::WorkerFailed { usage, .. } => usage,
            _ => Usage::zero_spec(),
        }
    }

    /// The usage burnt by the call, where any was reported.
    pub fn usage(&self) -> (r: Usage)
        ensures
            r == self.spent(),
    {
        match self {
            RoleError::WorkerFailed { usage, .. } => *usage,
            _ => Usage::zero(),
        }
    }

    pub open spec fn shown(self) -> Seq<char> {
        match self {
            RoleError::Output { role, source } => "role `"@ + role@ + "`: "@ + source.shown(),
            RoleError::Parse { role, message } => "role `"@ + role@
                + "` produced JSON the domain rejects: "@ + message@,
            RoleError::Invalid { role, subject, message } => "role `"@ + role@
                + "` produced an invalid "@ + subject@ + ": "@ + message@,
            RoleError::InvalidPlan { role, errors } => "role `"@ + role@
                + "` produced an invalid plan: "@ + join_of(views(errors@), "; "@),
            RoleError::Timeout { role, timeout } => "role `"@ + role@ + "` timed out after "@
                + duration_text(timeout),
            RoleError::WorkerUnavailable { role, worker } => "role `"@ + role@ + "`: worker `"@
                + worker.name@ + "` is not available"@,
            RoleError::UnknownModel { role, alias } => "role `"@ + role@ + "`: model alias `"@
                + alias@ + "` is not configured"@,
            RoleError::Spawn { role, source } => "role `"@ + role@ + "`: "@ + source@,
            RoleError::WorkerFailed { role, class, message, .. } => "role `"@ + role@
                + "` failed ("@ + class.name() + "): "@ + message@,
        }
    }

    /// What went wrong, in words.
    pub fn text(&self) -> (r: String)
        ensures
            r@ == self.shown(),
    {
        let mut s = cat("role `", self.role());
        match self {
            RoleError::Output { source, .. } => {
                s.append("`: ");
                let t = source.text();
                s.append(t.as_str());
            },
            RoleError::Parse { message, .. } => {
                s.append("` produced JSON the domain rejects: ");
                s.append(message.as_str());
            },
            RoleError::Invalid { subject, message, .. } => {
                s.append("` produced an invalid ");
                s.append(subject);
                s.append(": ");
                s.append(message.as_str());
            },
            RoleError::InvalidPlan { errors, .. } => {
                s.append("` produced an invalid plan: ");
                let all = format_plan_errors(errors);
                s.append(all.as_str());
            },
            RoleError::Timeout { timeout, .. } => {
                s.append("` timed out after ");
                let t = human_duration(*timeout);
                s.append(t.as_str());
            },
            RoleError::WorkerUnavailable { worker, .. } => {
                s.append("`: worker `");
                s.append(worker.name.as_str());
                s.append("` is not available");
            },
            RoleError::UnknownModel { alias, .. } => {
                s.append("`: model alias `");
                s.append(alias.as_str());
                s.append("` is not configured");
            },
            RoleError::Spawn { source, .. } => {
                s.append("`: ");
                s.append(source.as_str());
            },
            RoleError::WorkerFailed { class, message, .. } => {
                s.append("` failed (");
                s.append(class.as_str());
                s.append("): ");
                s.append(message.as_str());
            },
        }
        s
    }
}

/// The errors with semicolons between.
pub fn format_plan_errors(errors: &Vec<String>) -> (r: String)
    ensures
        r@ == join_of(views(errors@), "; "@),
{
    join(errors, "; ")
}

/// The variables that the rules shared by all prompts are rendered with: those of
/// the role, the rule against injected instructions, and the schema's identifier.
pub fn rule_vars(vars: Vec<Var>, injection_rule: &str, schema_id: &str) -> (r: Vec<Var>)
    ensures
        var_views(r@) == var_views(vars@).push(
            ("injection_rule"@, ValueView::Text(injection_rule@)),
        ).push(("schema_id"@, ValueView::Text(schema_id@))),
{
    let mut r = vars;
    context::set(&mut r, "injection_rule", injection_rule.to_owned());
    context::set(&mut r, "schema_id", schema_id.to_owned());
    r
}

/// The variables that both halves of a prompt are rendered with: those of the
/// shared rules, and the rules as they were rendered.
pub fn prompt_vars(vars: Vec<Var>, common_rules: &str) -> (r: Vec<Var>)
    ensures
        var_views(r@) == var_views(vars@).push(("common_rules"@, ValueView::Text(common_rules@))),
{
    let mut r = vars;
    context::set(&mut r, "common_rules", common_rules.to_owned());
    r
}

/// What is made of an answer once it was extracted and read: an extraction error
/// stays, and a value that its own validation refuses becomes an error about
/// `subject`.
pub fn checked<T>(
    role: &'static str,
    subject: &'static str,
    extracted: Result<T, RoleError>,
    refusal: Option<String>,
) -> (r: Result<T, RoleError>)
    ensures
        match (extracted, refusal) {
            (Err(e), _) => r == Err::<T, RoleError>(e),
            (Ok(_), Some(message)) => r == Err::<T, RoleError>(
                RoleError::Invalid { role, subject, message },
            ),
            (Ok(v), None) => r == Ok::<T, RoleError>(v),
        },
{
    match extracted {
        Err(e) => Err(e),
        Ok(v) => match refusal {
            Some(message) => Err(RoleError::Invalid { role, subject, message }),
            None => Ok(v),
        },
    }
}

/// Every role but the integrator runs read-only.
pub proof fn law_only_the_integrator_writes(planner: PlannerPlan)
    ensures
        PlannerUnderstanding.policy() == WorkspacePolicy::ReadOnly,
        planner.policy() == WorkspacePolicy::ReadOnly,
        Clarifier.policy() == WorkspacePolicy::ReadOnly,
        Summarizer.policy() == WorkspacePolicy::ReadOnly,
        Integrator.policy() != WorkspacePolicy::ReadOnly,
{
}

/// Only an answer that breaks its schema can be repaired; missing and malformed
/// answers, and every other error, cannot.
pub proof fn law_only_schema_violations_are_repairable(error: RoleError)
    ensures
        error.schema_violation() <==> (error matches RoleError::Output { source, .. }
            && source is SchemaViolation),
        error is Timeout || error is Spawn || error is WorkerFailed || error is Parse
            || error is Invalid || error is InvalidPlan || error is WorkerUnavailable
            || error is UnknownModel ==> !error.schema_violation(),
{
}

/// A failed worker's usage is not lost; other errors report none.
pub proof fn law_a_failed_call_still_costs(error: RoleError)
    ensures
        error matches RoleError::WorkerFailed { usage, .. } ==> error.spent() == usage,
        !(error is WorkerFailed) ==> error.spent().input_tokens == 0 && error.spent().output_tokens
            == 0 && error.spent().cost_usd is None && error.spent().wall_ms == 0,
{
}

} // verus!
