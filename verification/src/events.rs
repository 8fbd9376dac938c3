//! The recorded facts of runs, tasks and questions, as the read models and the
//! saga take them in.
use vstd::prelude::*;

use crate::domain::{
    Answer, ArtifactRef, AttemptId, Budget, EvaluationId, EventId, FailureClass, Goal, Micros,
    QuestionId, QuestionOption, QuestionPolicy, Route, RunId, RunMode, TaskId, TaskKind,
    TaskOutcome, TaskSpec, Usage, Workspace,
};

verus! {

/// Where and when an event was recorded.
#[derive(Debug, Clone, Copy, PartialEq, Eq, Structural)]
pub struct EventMeta {
    pub event_id: EventId,
    /// The run, task or question the event belongs to.
    pub aggregate_id: u128,
    /// Version of the aggregate after the event.
    pub aggregate_version: u64,
    /// The run, for every kind of event.
    pub run_id: RunId,
    /// Global position.
    pub position: u64,
    pub occurred_at: Micros,
}

/// Why a run failed.
#[derive(Debug, PartialEq, Eq)]
pub enum RunFailureReason {
    BudgetExhausted,
    IntegrationFailed,
    InvalidPlan,
    PlanRevisionLimit,
    RuntimeRestarted,
    TaskFailed,
    UnansweredQuestion,
    Other(String),
}

impl RunFailureReason {
    pub open spec fn label(self) -> Seq<char> {
        match self {
            RunFailureReason::BudgetExhausted => "budget_exhausted"@,
            RunFailureReason::IntegrationFailed => "integration_failed"@,
            RunFailureReason::InvalidPlan => "invalid_plan"@,
            RunFailureReason::PlanRevisionLimit => "plan_revision_limit"@,
            RunFailureReason::RuntimeRestarted => "runtime_restarted"@,
            RunFailureReason::TaskFailed => "task_failed"@,
            RunFailureReason::UnansweredQuestion => "unanswered_question"@,
            RunFailureReason::Other(name) => name@,
        }
    }

    /// The `snake_case` name.
    pub fn name(&self) -> (r: String)
        ensures
            r@ == self.label(),
    {
        match self {
            RunFailureReason::BudgetExhausted => "budget_exhausted".to_owned(),
            RunFailureReason::IntegrationFailed => "integration_failed".to_owned(),
            RunFailureReason::InvalidPlan => "invalid_plan".to_owned(),
            RunFailureReason::PlanRevisionLimit => "plan_revision_limit".to_owned(),
            RunFailureReason::RuntimeRestarted => "runtime_restarted".to_owned(),
            RunFailureReason::TaskFailed => "task_failed".to_owned(),
            RunFailureReason::UnansweredQuestion => "unanswered_question".to_owned(),
            RunFailureReason::Other(name) => name.clone(),
        }
    }
}

/// An event of a run. Documents that nothing here reads (the understanding,
/// the plan) are carried as JSON text.
#[allow(inconsistent_fields)]
#[derive(Debug, PartialEq, Eq)]
pub enum RunEvent {
    Started {
        goal: Goal,
        mode: RunMode,
        budget: Budget,
        requested_by: String,
        auto_approve_plans: bool,
    },
    UnderstandingStarted { planner_route: Route },
    UnderstandingCompleted { understanding: String, usage: Usage, question_ids: Vec<QuestionId> },
    QuestionAnswered { question_id: QuestionId },
    PlanProposed { plan: String, usage: Usage, revision: u16 },
    PlanApproved,
    PlanRejected,
    ExecutionStarted { task_ids: Vec<TaskId> },
    UsageRecorded { run_usage: Usage },
    TaskTerminalNoted { outcome: TaskOutcome, run_usage: Usage, all_terminal: bool },
    BudgetExhausted { dimension: String },
    Integrated { artifacts: Vec<ArtifactRef>, summary: String },
    EvaluationRequested,
    /// `overall` is the IEEE bit pattern of the score.
    Evaluated { evaluation_id: EvaluationId, overall: u32, verdict: String },
    Completed { summary: String, usage: Usage },
    Failed { reason: RunFailureReason, class: FailureClass, usage: Usage, message: Option<String> },
    Cancelled { by: String, reason: Option<String> },
}

/// An event of a task.
#[derive(Debug, PartialEq, Eq)]
pub enum TaskEvent {
    Created { run_id: RunId, kind: TaskKind, spec: TaskSpec, budget: Budget },
    /// `selection` is JSON text.
    Routed { route: Route, selection: String },
    AttemptStarted {
        attempt_id: AttemptId,
        attempt_no: u16,
        route: Route,
        workspace: Workspace,
        worker_session_id: Option<String>,
    },
    Progressed { attempt_id: AttemptId, summary: String, usage_delta: Usage, log_seq: u64 },
    InputRequested { attempt_id: AttemptId, question_id: QuestionId },
    InputProvided { attempt_id: AttemptId },
    AttemptSucceeded {
        attempt_id: AttemptId,
        artifacts: Vec<ArtifactRef>,
        summary: String,
        usage: Usage,
    },
    AttemptFailed { attempt_id: AttemptId, class: FailureClass, message: String, usage: Usage },
    Retried,
    Cancelled { reason: String },
    Skipped { reason: String },
}

/// An event of a question.
#[derive(Debug, PartialEq, Eq)]
pub enum QuestionEvent {
    Asked {
        run_id: RunId,
        task_id: Option<TaskId>,
        text: String,
        options: Vec<QuestionOption>,
        multi_select: bool,
        default: Option<Answer>,
        policy: QuestionPolicy,
    },
    Answered { answer: Answer, answered_by: String },
    Expired { applied_default: bool },
}

impl RunEvent {
    /// The usages and budgets in the event are well formed.
    pub open spec fn wf(self) -> bool {
        match self {
            RunEvent::Started { budget, .. } => budget.wf(),
            RunEvent::UnderstandingCompleted { usage, .. } => usage.wf(),
            RunEvent::PlanProposed { usage, .. } => usage.wf(),
            RunEvent::UsageRecorded { run_usage } => run_usage.wf(),
            RunEvent::TaskTerminalNoted { run_usage, .. } => run_usage.wf(),
            RunEvent::Completed { usage, .. } => usage.wf(),
            RunEvent::Failed { usage, .. } => usage.wf(),
            _ => true,
        }
    }

    /// Whether the usages and budgets in the event are well formed.
    pub fn is_valid(&self) -> (b: bool)
        ensures
            b == self.wf(),
    {
        match self {
            RunEvent::Started { budget, .. } => budget.is_valid(),
            RunEvent::UnderstandingCompleted { usage, .. } => usage.is_valid(),
            RunEvent::PlanProposed { usage, .. } => usage.is_valid(),
            RunEvent::UsageRecorded { run_usage } => run_usage.is_valid(),
            RunEvent::TaskTerminalNoted { run_usage, .. } => run_usage.is_valid(),
            RunEvent::Completed { usage, .. } => usage.is_valid(),
            RunEvent::Failed { usage, .. } => usage.is_valid(),
            _ => true,
        }
    }
}

impl TaskEvent {
    /// The usages and budgets in the event are well formed.
    pub open spec fn wf(self) -> bool {
        match self {
            TaskEvent::Created { budget, .. } => budget.wf(),
            TaskEvent::Progressed { usage_delta, .. } => usage_delta.wf(),
            TaskEvent::AttemptSucceeded { usage, .. } => usage.wf(),
            TaskEvent::AttemptFailed { usage, .. } => usage.wf(),
            _ => true,
        }
    }

    /// Whether the usages and budgets in the event are well formed.
    pub fn is_valid(&self) -> (b: bool)
        ensures
            b == self.wf(),
    {
        match self {
            TaskEvent::Created { budget, .. } => budget.is_valid(),
            TaskEvent::Progressed { usage_delta, .. } => usage_delta.is_valid(),
            TaskEvent::AttemptSucceeded { usage, .. } => usage.is_valid(),
            TaskEvent::AttemptFailed { usage, .. } => usage.is_valid(),
            _ => true,
        }
    }
}

} // verus!
