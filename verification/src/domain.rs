//! The values that runs, tasks and questions are made of.
use vstd::prelude::*;

use crate::money::Amount;

verus! {

/// Identifiers are the 128 bits of a UUID.
pub type RunId = u128;

pub type TaskId = u128;

pub type AttemptId = u128;

pub type QuestionId = u128;

pub type ArtifactId = u128;

pub type EventId = u128;

pub type EvaluationId = u128;

/// Microseconds since the Unix epoch, the resolution the read models store.
pub type Micros = i64;

/// Nanoseconds since the Unix epoch.
pub type Instant = i128;

// ---------------------------------------------------------------------------
// Durations
// ---------------------------------------------------------------------------
/// A span of time: whole seconds and the nanoseconds beyond them.
#[derive(Debug, Clone, Copy, PartialEq, Eq, Structural)]
pub struct Span {
    pub secs: u64,
    pub nanos: u32,
}

impl Span {
    /// The nanoseconds are less than a second.
    pub open spec fn wf(self) -> bool {
        self.nanos < 1_000_000_000
    }

    /// The whole span in nanoseconds.
    pub open spec fn total(self) -> int {
        self.secs * 1_000_000_000 + self.nanos
    }

    /// `secs` seconds.
    pub fn from_secs(secs: u64) -> (r: Span)
        ensures
            r.wf(),
            r.secs == secs,
            r.nanos == 0,
    {
        Span { secs, nanos: 0 }
    }

    /// `millis` milliseconds.
    pub fn from_millis(millis: u64) -> (r: Span)
        ensures
            r.wf(),
            r.total() == millis * 1_000_000,
    {
        Span { secs: millis / 1000, nanos: ((millis % 1000) as u32) * 1_000_000 }
    }

    /// Whether the span is empty.
    pub fn is_zero(self) -> (b: bool)
        ensures
            b == (self.total() == 0),
    {
        self.secs == 0 && self.nanos == 0
    }

    /// The whole span in nanoseconds.
    pub fn as_nanos(self) -> (r: u128)
        ensures
            r == self.total(),
    {
        (self.secs as u128) * 1_000_000_000 + (self.nanos as u128)
    }

    /// The span in whole milliseconds.
    pub fn as_millis(self) -> (r: u128)
        ensures
            r == self.total() / 1_000_000,
    {
        self.as_nanos() / 1_000_000
    }
}

// ---------------------------------------------------------------------------
// Status values
// ---------------------------------------------------------------------------
#[derive(Debug, Clone, Copy, PartialEq, Eq, Structural)]
pub enum RunStatus {
    Received,
    Understanding,
    AwaitingAnswers,
    Planning,
    AwaitingPlanApproval,
    Executing,
    Integrating,
    Evaluating,
    Completed,
    Failed,
    Cancelled,
}

impl RunStatus {
    pub open spec fn name(self) -> Seq<char> {
        match self {
            RunStatus::Received => "received"@,
            RunStatus::Understanding => "understanding"@,
            RunStatus::AwaitingAnswers => "awaiting_answers"@,
            RunStatus::Planning => "planning"@,
            RunStatus::AwaitingPlanApproval => "awaiting_plan_approval"@,
            RunStatus::Executing => "executing"@,
            RunStatus::Integrating => "integrating"@,
            RunStatus::Evaluating => "evaluating"@,
            RunStatus::Completed => "completed"@,
            RunStatus::Failed => "failed"@,
            RunStatus::Cancelled => "cancelled"@,
        }
    }

    /// No event follows.
    pub open spec fn terminal(self) -> bool {
        self == RunStatus::Completed || self == RunStatus::Failed || self == RunStatus::Cancelled
    }

    /// The `snake_case` name.
    pub fn as_str(self) -> (r: &'static str)
        ensures
            r@ == self.name(),
    {
        match self {
            RunStatus::Received => "received",
            RunStatus::Understanding => "understanding",
            RunStatus::AwaitingAnswers => "awaiting_answers",
            RunStatus::Planning => "planning",
            RunStatus::AwaitingPlanApproval => "awaiting_plan_approval",
            RunStatus::Executing => "executing",
            RunStatus::Integrating => "integrating",
            RunStatus::Evaluating => "evaluating",
            RunStatus::Completed => "completed",
            RunStatus::Failed => "failed",
            RunStatus::Cancelled => "cancelled",
        }
    }

    /// Whether the run is over.
    pub fn is_terminal(self) -> (b: bool)
        ensures
            b == self.terminal(),
    {
        match self {
            RunStatus::Completed | RunStatus::Failed | RunStatus::Cancelled => true,
            _ => false,
        }
    }
}

#[derive(Debug, Clone, Copy, PartialEq, Eq, Structural)]
pub enum TaskStatus {
    Pending,
    Routed,
    Running,
    AwaitingInput,
    Succeeded,
    Failed,
    Cancelled,
    Skipped,
}

impl TaskStatus {
    pub open spec fn name(self) -> Seq<char> {
        match self {
            TaskStatus::Pending => "pending"@,
            TaskStatus::Routed => "routed"@,
            TaskStatus::Running => "running"@,
            TaskStatus::AwaitingInput => "awaiting_input"@,
            TaskStatus::Succeeded => "succeeded"@,
            TaskStatus::Failed => "failed"@,
            TaskStatus::Cancelled => "cancelled"@,
            TaskStatus::Skipped => "skipped"@,
        }
    }

    /// An attempt is in flight.
    pub open spec fn active(self) -> bool {
        self == TaskStatus::Running || self == TaskStatus::AwaitingInput
    }

    /// The `snake_case` name.
    pub fn as_str(self) -> (r: &'static str)
        ensures
            r@ == self.name(),
    {
        match self {
            TaskStatus::Pending => "pending",
            TaskStatus::Routed => "routed",
            TaskStatus::Running => "running",
            TaskStatus::AwaitingInput => "awaiting_input",
            TaskStatus::Succeeded => "succeeded",
            TaskStatus::Failed => "failed",
            TaskStatus::Cancelled => "cancelled",
            TaskStatus::Skipped => "skipped",
        }
    }

    /// Whether an attempt is in flight.
    pub fn has_active_attempt(self) -> (b: bool)
        ensures
            b == self.active(),
    {
        match self {
            TaskStatus::Running | TaskStatus::AwaitingInput => true,
            _ => false,
        }
    }
}

#[derive(Debug, Clone, Copy, PartialEq, Eq, Structural)]
pub enum QuestionStatus {
    Open,
    Answered,
    Expired,
}

#[derive(Debug, Clone, Copy, PartialEq, Eq, Structural)]
pub enum FailureClass {
    Transient,
    Permanent,
    Budget,
    Cancelled,
    RuntimeRestarted,
}

impl FailureClass {
    pub open spec fn name(self) -> Seq<char> {
        match self {
            FailureClass::Transient => "transient"@,
            FailureClass::Permanent => "permanent"@,
            FailureClass::Budget => "budget"@,
            FailureClass::Cancelled => "cancelled"@,
            FailureClass::RuntimeRestarted => "runtime_restarted"@,
        }
    }

    /// A later attempt may succeed.
    pub open spec fn retryable(self) -> bool {
        self == FailureClass::Transient || self == FailureClass::RuntimeRestarted
    }

    /// The `snake_case` name.
    pub fn as_str(self) -> (r: &'static str)
        ensures
            r@ == self.name(),
    {
        match self {
            FailureClass::Transient => "transient",
            FailureClass::Permanent => "permanent",
            FailureClass::Budget => "budget",
            FailureClass::Cancelled => "cancelled",
            FailureClass::RuntimeRestarted => "runtime_restarted",
        }
    }

    /// Whether a later attempt may succeed.
    pub fn is_retryable(self) -> (b: bool)
        ensures
            b == self.retryable(),
    {
        match self {
            FailureClass::Transient | FailureClass::RuntimeRestarted => true,
            _ => false,
        }
    }
}

#[derive(Debug, Clone, Copy, PartialEq, Eq, Structural)]
pub enum TaskOutcome {
    Succeeded,
    Failed,
    Cancelled,
    Skipped,
}

#[derive(Debug, Clone, Copy, PartialEq, Eq, Structural)]
pub enum WorkspacePolicy {
    Isolated,
    Shared,
    ReadOnly,
}

#[derive(Debug, Clone, Copy, PartialEq, Eq, Structural)]
pub enum RepoKind {
    Git,
    Jj,
    /// Not under version control.
    Plain,
}

#[derive(Debug, Clone, Copy, PartialEq, Eq, Structural)]
pub enum ArtifactKind {
    Diff,
    File,
    PrUrl,
    Report,
    Json,
    Transcript,
}

impl ArtifactKind {
    pub open spec fn name(self) -> Seq<char> {
        match self {
            ArtifactKind::Diff => "diff"@,
            ArtifactKind::File => "file"@,
            ArtifactKind::PrUrl => "pr_url"@,
            ArtifactKind::Report => "report"@,
            ArtifactKind::Json => "json"@,
            ArtifactKind::Transcript => "transcript"@,
        }
    }

    /// The `snake_case` name.
    pub fn as_str(self) -> (r: &'static str)
        ensures
            r@ == self.name(),
    {
        match self {
            ArtifactKind::Diff => "diff",
            ArtifactKind::File => "file",
            ArtifactKind::PrUrl => "pr_url",
            ArtifactKind::Report => "report",
            ArtifactKind::Json => "json",
            ArtifactKind::Transcript => "transcript",
        }
    }
}

#[derive(Debug, Clone, Copy, PartialEq, Eq, Structural)]
pub enum Complexity {
    Low,
    Medium,
    High,
}

/// The configured roles that have a route of their own.
#[derive(Debug, Clone, Copy, PartialEq, Eq, Structural)]
pub enum Role {
    Planner,
    Clarifier,
    Integrator,
    Judge,
    Summarizer,
}

impl Role {
    pub open spec fn name(self) -> Seq<char> {
        match self {
            Role::Planner => "planner"@,
            Role::Clarifier => "clarifier"@,
            Role::Integrator => "integrator"@,
            Role::Judge => "judge"@,
            Role::Summarizer => "summarizer"@,
        }
    }

    /// The name under `[roles]`.
    pub fn as_str(self) -> (r: &'static str)
        ensures
            r@ == self.name(),
    {
        match self {
            Role::Planner => "planner",
            Role::Clarifier => "clarifier",
            Role::Integrator => "integrator",
            Role::Judge => "judge",
            Role::Summarizer => "summarizer",
        }
    }
}

// ---------------------------------------------------------------------------
// Kinds and modes
// ---------------------------------------------------------------------------
/// What a task is for; kinds without a rule of their own go by their name.
#[derive(Debug, PartialEq, Eq)]
pub enum TaskKind {
    Understand,
    Clarify,
    Plan,
    Implement,
    Write,
    Integrate,
    Evaluate,
    Other(String),
}

impl TaskKind {
    pub open spec fn label(self) -> Seq<char> {
        match self {
            TaskKind::Understand => "understand"@,
            TaskKind::Clarify => "clarify"@,
            TaskKind::Plan => "plan"@,
            TaskKind::Implement => "implement"@,
            TaskKind::Write => "write"@,
            TaskKind::Integrate => "integrate"@,
            TaskKind::Evaluate => "evaluate"@,
            TaskKind::Other(name) => name@,
        }
    }

    /// The kind's name.
    pub fn name(&self) -> (r: String)
        ensures
            r@ == self.label(),
    {
        match self {
            TaskKind::Understand => "understand".to_owned(),
            TaskKind::Clarify => "clarify".to_owned(),
            TaskKind::Plan => "plan".to_owned(),
            TaskKind::Implement => "implement".to_owned(),
            TaskKind::Write => "write".to_owned(),
            TaskKind::Integrate => "integrate".to_owned(),
            TaskKind::Evaluate => "evaluate".to_owned(),
            TaskKind::Other(name) => name.clone(),
        }
    }
}

impl Clone for TaskKind {
    fn clone(&self) -> (r: Self)
        ensures
            r == *self,
    {
        match self {
            TaskKind::Understand => TaskKind::Understand,
            TaskKind::Clarify => TaskKind::Clarify,
            TaskKind::Plan => TaskKind::Plan,
            TaskKind::Implement => TaskKind::Implement,
            TaskKind::Write => TaskKind::Write,
            TaskKind::Integrate => TaskKind::Integrate,
            TaskKind::Evaluate => TaskKind::Evaluate,
            TaskKind::Other(name) => TaskKind::Other(name.clone()),
        }
    }
}

/// How a run was started.
#[derive(Debug, PartialEq, Eq)]
pub enum RunMode {
    Interactive,
    Headless,
    Kohral { turn_id: String, session_key: String, session_id: String },
}

impl RunMode {
    pub open spec fn kohral(self) -> bool {
        self is Kohral
    }

    /// Whether the run is one turn of the Kohral platform.
    pub fn is_kohral(&self) -> (b: bool)
        ensures
            b == self.kohral(),
    {
        match self {
            RunMode::Kohral { .. } => true,
            _ => false,
        }
    }

    /// Whether a human is there to answer.
    pub fn is_interactive(&self) -> (b: bool)
        ensures
            b == (self is Interactive),
    {
        match self {
            RunMode::Interactive => true,
            _ => false,
        }
    }
}

impl Clone for RunMode {
    fn clone(&self) -> (r: Self)
        ensures
            r == *self,
    {
        match self {
            RunMode::Interactive => RunMode::Interactive,
            RunMode::Headless => RunMode::Headless,
            RunMode::Kohral { turn_id, session_key, session_id } => RunMode::Kohral {
                turn_id: turn_id.clone(),
                session_key: session_key.clone(),
                session_id: session_id.clone(),
            },
        }
    }
}

/// The name of the program that runs an attempt.
#[derive(Debug, PartialEq, Eq)]
pub struct WorkerKind {
    pub name: String,
}

impl Clone for WorkerKind {
    fn clone(&self) -> (r: Self)
        ensures
            r == *self,
    {
        WorkerKind { name: self.name.clone() }
    }
}

/// Where an attempt runs: worker, model alias and effort.
#[derive(Debug, PartialEq, Eq)]
pub struct Route {
    pub worker: WorkerKind,
    pub model: String,
    pub effort: Option<String>,
}

/// A copy of an optional string.
pub fn clone_text(text: &Option<String>) -> (r: Option<String>)
    ensures
        r == *text,
{
    match text {
        Some(t) => Some(t.clone()),
        None => None,
    }
}

impl Clone for Route {
    fn clone(&self) -> (r: Self)
        ensures
            r == *self,
    {
        Route {
            worker: self.worker.clone(),
            model: self.model.clone(),
            effort: clone_text(&self.effort),
        }
    }
}

/// Where the user's request points.
#[derive(Debug, PartialEq, Eq)]
pub struct Goal {
    pub text: String,
    pub cwd: String,
    pub repo_kind: RepoKind,
}

impl Clone for Goal {
    fn clone(&self) -> (r: Self)
        ensures
            r == *self,
    {
        Goal { text: self.text.clone(), cwd: self.cwd.clone(), repo_kind: self.repo_kind }
    }
}

// ---------------------------------------------------------------------------
// Budgets and usage
// ---------------------------------------------------------------------------
/// Limits of a run or a task; `None` is no limit.
#[derive(Debug, Clone, Copy, PartialEq, Eq, Structural)]
pub struct Budget {
    pub max_usd: Option<Amount>,
    pub max_tokens: Option<u64>,
    pub max_wall: Option<Span>,
    pub max_attempts: u16,
    pub max_parallel: u16,
}

impl Budget {
    pub open spec fn wf(self) -> bool {
        (self.max_usd matches Some(a) ==> a.wf()) && (self.max_wall matches Some(s) ==> s.wf())
    }

    /// Whether the amount and the time in the budget are well formed.
    pub fn is_valid(&self) -> (b: bool)
        ensures
            b == self.wf(),
    {
        let amount = match &self.max_usd {
            Some(a) => a.is_valid(),
            None => true,
        };
        let time = match &self.max_wall {
            Some(s) => s.nanos < 1_000_000_000,
            None => true,
        };
        amount && time
    }
}

/// Tokens, money and time that were spent; an unknown cost is not zero.
#[derive(Debug, Clone, Copy, PartialEq, Eq, Structural)]
pub struct Usage {
    pub input_tokens: u64,
    pub output_tokens: u64,
    pub cache_read_tokens: u64,
    pub cache_write_tokens: u64,
    pub cost_usd: Option<Amount>,
    pub wall_ms: u64,
}

/// `a + b`, capped at the largest `u64`.
pub open spec fn sat_add(a: u64, b: u64) -> u64 {
    if a + b > u64::MAX {
        u64::MAX
    } else {
        (a + b) as u64
    }
}

/// The cost of two usages: unknown where both are, otherwise the sum of the
/// known ones; the outer `None` is an overflow.
pub open spec fn cost_sum(a: Option<Amount>, b: Option<Amount>) -> Option<Option<Amount>> {
    match (a, b) {
        (None, None) => Some(None),
        (Some(x), None) => Some(Some(x)),
        (None, Some(y)) => Some(Some(y)),
        (Some(x), Some(y)) => match x.plus_spec(y) {
            Some(z) => Some(Some(z)),
            None => None,
        },
    }
}

/// Adds two costs (see [`cost_sum`]).
pub fn add_costs(a: Option<Amount>, b: Option<Amount>) -> (r: Option<Option<Amount>>)
    requires
        a matches Some(x) ==> x.wf(),
        b matches Some(y) ==> y.wf(),
    ensures
        r == cost_sum(a, b),
        r matches Some(Some(z)) ==> z.wf(),
{
    match (a, b) {
        (None, None) => Some(None),
        (Some(x), None) => Some(Some(x)),
        (None, Some(y)) => Some(Some(y)),
        (Some(x), Some(y)) => match x.plus(y) {
            Some(z) => Some(Some(z)),
            None => None,
        },
    }
}

impl Usage {
    pub open spec fn wf(self) -> bool {
        self.cost_usd matches Some(a) ==> a.wf()
    }

    pub open spec fn zero_spec() -> Usage {
        Usage {
            input_tokens: 0,
            output_tokens: 0,
            cache_read_tokens: 0,
            cache_write_tokens: 0,
            cost_usd: None,
            wall_ms: 0,
        }
    }

    /// Input and output tokens together.
    pub open spec fn tokens(self) -> u64 {
        sat_add(self.input_tokens, self.output_tokens)
    }

    /// The sum of two usages: tokens and time saturate, the costs follow
    /// [`cost_sum`].
    pub open spec fn plus_spec(self, other: Usage) -> Option<Usage> {
        match cost_sum(self.cost_usd, other.cost_usd) {
            Some(cost) => Some(
                Usage {
                    input_tokens: sat_add(self.input_tokens, other.input_tokens),
                    output_tokens: sat_add(self.output_tokens, other.output_tokens),
                    cache_read_tokens: sat_add(self.cache_read_tokens, other.cache_read_tokens),
                    cache_write_tokens: sat_add(self.cache_write_tokens, other.cache_write_tokens),
                    cost_usd: cost,
                    wall_ms: sat_add(self.wall_ms, other.wall_ms),
                },
            ),
            None => None,
        }
    }

    /// Nothing spent, cost unknown.
    pub fn zero() -> (r: Usage)
        ensures
            r == Usage::zero_spec(),
            r.wf(),
    {
        Usage {
            input_tokens: 0,
            output_tokens: 0,
            cache_read_tokens: 0,
            cache_write_tokens: 0,
            cost_usd: None,
            wall_ms: 0,
        }
    }

    /// Whether the cost is well formed.
    pub fn is_valid(&self) -> (b: bool)
        ensures
            b == self.wf(),
    {
        match &self.cost_usd {
            Some(a) => a.is_valid(),
            None => true,
        }
    }

    /// Whether nothing was spent.
    pub fn is_zero(&self) -> (b: bool)
        ensures
            b == (*self == Usage::zero_spec()),
    {
        *self == Usage::zero()
    }

    /// Input and output tokens together.
    pub fn total_tokens(&self) -> (r: u64)
        ensures
            r == self.tokens(),
    {
        self.input_tokens.saturating_add(self.output_tokens)
    }

    /// The sum; `None` where the costs overflow.
    pub fn plus(&self, other: &Usage) -> (r: Option<Usage>)
        requires
            self.wf(),
            other.wf(),
        ensures
            r == self.plus_spec(*other),
            r matches Some(u) ==> u.wf(),
    {
        match add_costs(self.cost_usd, other.cost_usd) {
            Some(cost) => Some(
                Usage {
                    input_tokens: self.input_tokens.saturating_add(other.input_tokens),
                    output_tokens: self.output_tokens.saturating_add(other.output_tokens),
                    cache_read_tokens: self.cache_read_tokens.saturating_add(
                        other.cache_read_tokens,
                    ),
                    cache_write_tokens: self.cache_write_tokens.saturating_add(
                        other.cache_write_tokens,
                    ),
                    cost_usd: cost,
                    wall_ms: self.wall_ms.saturating_add(other.wall_ms),
                },
            ),
            None => None,
        }
    }
}

// ---------------------------------------------------------------------------
// Artifacts, workspaces, answers
// ---------------------------------------------------------------------------
/// Something a task attempt or the integration produced.
#[derive(Debug, PartialEq, Eq)]
pub struct ArtifactRef {
    pub id: ArtifactId,
    pub kind: ArtifactKind,
    pub uri: String,
    pub sha256: Option<String>,
    pub bytes: Option<u64>,
}

impl Clone for ArtifactRef {
    fn clone(&self) -> (r: Self)
        ensures
            r == *self,
    {
        ArtifactRef {
            id: self.id,
            kind: self.kind,
            uri: self.uri.clone(),
            sha256: clone_text(&self.sha256),
            bytes: self.bytes,
        }
    }
}

#[derive(Debug, PartialEq, Eq)]
pub enum WorkspaceKind {
    InPlace,
    GitWorktree { branch: String },
    JjWorkspace { name: String },
}

/// A checkout an attempt works in.
#[derive(Debug, PartialEq, Eq)]
pub struct Workspace {
    pub root: String,
    pub kind: WorkspaceKind,
    pub base_rev: Option<String>,
}

impl Clone for WorkspaceKind {
    fn clone(&self) -> (r: Self)
        ensures
            r == *self,
    {
        match self {
            WorkspaceKind::InPlace => WorkspaceKind::InPlace,
            WorkspaceKind::GitWorktree { branch } => WorkspaceKind::GitWorktree {
                branch: branch.clone(),
            },
            WorkspaceKind::JjWorkspace { name } => WorkspaceKind::JjWorkspace {
                name: name.clone(),
            },
        }
    }
}

impl Clone for Workspace {
    fn clone(&self) -> (r: Self)
        ensures
            r == *self,
    {
        Workspace {
            root: self.root.clone(),
            kind: self.kind.clone(),
            base_rev: clone_text(&self.base_rev),
        }
    }
}

/// One answer to a question.
#[derive(Debug, PartialEq, Eq)]
pub struct Answer {
    pub selected: Vec<String>,
    pub free_text: Option<String>,
    pub answered_by: String,
}

/// `answered_by` of an answer that a default gave.
pub const DEFAULT_ANSWERED_BY: &'static str = "default";

/// What happens to a question that nobody answers.
#[derive(Debug, Clone, Copy, PartialEq, Eq, Structural)]
pub enum QuestionPolicy {
    Block,
    DefaultAfter { timeout: Span },
}

impl QuestionPolicy {
    /// The default applies at once.
    pub open spec fn immediate() -> QuestionPolicy {
        QuestionPolicy::DefaultAfter { timeout: Span { secs: 0, nanos: 0 } }
    }

    /// The default applies at once.
    pub fn immediate_default() -> (r: QuestionPolicy)
        ensures
            r == QuestionPolicy::immediate(),
    {
        QuestionPolicy::DefaultAfter { timeout: Span { secs: 0, nanos: 0 } }
    }
}

/// One choice of a question.
#[derive(Debug, PartialEq, Eq)]
pub struct QuestionOption {
    pub label: String,
    pub description: Option<String>,
    pub recommended: bool,
}

impl Clone for QuestionOption {
    fn clone(&self) -> (r: Self)
        ensures
            r == *self,
    {
        QuestionOption {
            label: self.label.clone(),
            description: clone_text(&self.description),
            recommended: self.recommended,
        }
    }
}

/// What a task is to do.
#[derive(Debug, PartialEq, Eq)]
pub struct TaskSpec {
    pub title: String,
    pub instructions: String,
    pub inputs: Vec<ArtifactRef>,
    pub acceptance_criteria: Vec<String>,
    pub depends_on: Vec<TaskId>,
    pub workspace_policy: WorkspacePolicy,
    pub parallel_safe: bool,
    pub optional: bool,
    pub output_schema: Option<String>,
}

impl TaskSpec {
    /// A spec with a title and instructions: isolated, safe to run in
    /// parallel, required, without dependencies.
    pub fn new(title: &str, instructions: &str) -> (r: TaskSpec)
        ensures
            r.title@ == title@,
            r.instructions@ == instructions@,
            r.inputs@.len() == 0,
            r.acceptance_criteria@.len() == 0,
            r.depends_on@.len() == 0,
            r.workspace_policy == WorkspacePolicy::Isolated,
            r.parallel_safe,
            !r.optional,
            r.output_schema is None,
    {
        TaskSpec {
            title: title.to_owned(),
            instructions: instructions.to_owned(),
            inputs: Vec::new(),
            acceptance_criteria: Vec::new(),
            depends_on: Vec::new(),
            workspace_policy: WorkspacePolicy::Isolated,
            parallel_safe: true,
            optional: false,
            output_schema: None,
        }
    }
}

/// Why an attempt failed.
#[derive(Debug, PartialEq, Eq)]
pub struct AttemptFailure {
    pub class: FailureClass,
    pub message: String,
}

impl Clone for AttemptFailure {
    fn clone(&self) -> (r: Self)
        ensures
            r == *self,
    {
        AttemptFailure { class: self.class, message: self.message.clone() }
    }
}

// ---------------------------------------------------------------------------
// Runs, tasks and questions as the saga sees them
// ---------------------------------------------------------------------------
/// One attempt of a task.
#[derive(Debug, PartialEq, Eq)]
pub struct Attempt {
    pub id: AttemptId,
    pub route: Route,
    pub workspace: Workspace,
    pub usage: Usage,
    pub summary: Option<String>,
    pub failure: Option<AttemptFailure>,
}

/// A task.
#[derive(Debug, PartialEq, Eq)]
pub struct Task {
    pub status: TaskStatus,
    pub kind: Option<TaskKind>,
    pub spec: Option<TaskSpec>,
    pub budget: Budget,
    pub attempts_used: u16,
    /// The attempt in flight, if any.
    pub active_attempt: Option<AttemptId>,
    pub last_attempt: Option<Attempt>,
    pub usage: Usage,
    pub artifacts: Vec<ArtifactRef>,
    /// The task's own rules leave room for another attempt.
    pub can_retry: bool,
    /// Nothing will run any more.
    pub terminal: bool,
}

// ---------------------------------------------------------------------------
// Laws
// ---------------------------------------------------------------------------
/// A run is over exactly when it completed, failed or was cancelled.
pub proof fn law_runs_end_in_three_ways(status: RunStatus)
    ensures
        status.terminal() <==> status == RunStatus::Completed || status == RunStatus::Failed
            || status == RunStatus::Cancelled,
{
}

/// A task has an attempt in flight exactly while it runs or waits for input.
pub proof fn law_running_and_waiting_tasks_are_active(status: TaskStatus)
    ensures
        status.active() <==> status == TaskStatus::Running || status == TaskStatus::AwaitingInput,
{
}

/// Only a passing fault and a restart leave hope for another attempt.
pub proof fn law_passing_faults_leave_hope(class: FailureClass)
    ensures
        class.retryable() <==> class == FailureClass::Transient || class
            == FailureClass::RuntimeRestarted,
{
}

/// Two spans are as long as each other exactly where they are the same, as long as
/// the nanoseconds are less than a second.
pub proof fn law_spans_are_told_apart(a: Span, b: Span)
    requires
        a.wf(),
        b.wf(),
    ensures
        a.total() == b.total() <==> a == b,
        a.total() == a.secs * 1_000_000_000 + a.nanos,
        a.secs < b.secs ==> a.total() < b.total(),
{
}

/// Usages are added number by number, in any order; nothing spent adds nothing.
pub proof fn law_usages_are_added_number_by_number(a: Usage, b: Usage)
    ensures
        a.plus_spec(b) matches Some(c) ==> {
            &&& a.input_tokens + b.input_tokens <= u64::MAX ==> c.input_tokens == a.input_tokens
                + b.input_tokens
            &&& a.output_tokens + b.output_tokens <= u64::MAX ==> c.output_tokens
                == a.output_tokens + b.output_tokens
            &&& a.cache_read_tokens + b.cache_read_tokens <= u64::MAX ==> c.cache_read_tokens
                == a.cache_read_tokens + b.cache_read_tokens
            &&& a.cache_write_tokens + b.cache_write_tokens <= u64::MAX ==> c.cache_write_tokens
                == a.cache_write_tokens + b.cache_write_tokens
            &&& a.wall_ms + b.wall_ms <= u64::MAX ==> c.wall_ms == a.wall_ms + b.wall_ms
            &&& c.input_tokens >= a.input_tokens && c.input_tokens >= b.input_tokens
            &&& c.output_tokens >= a.output_tokens && c.output_tokens >= b.output_tokens
            &&& c.wall_ms >= a.wall_ms && c.wall_ms >= b.wall_ms
            &&& a.cost_usd is None ==> c.cost_usd == b.cost_usd
            &&& b.cost_usd is None ==> c.cost_usd == a.cost_usd
            &&& a.cost_usd is Some && b.cost_usd is Some ==> c.cost_usd
                == a.cost_usd->0.plus_spec(b.cost_usd->0)
        },
        a.cost_usd is None || b.cost_usd is None ==> a.plus_spec(b) is Some,
        a.cost_usd is None || b.cost_usd is None ==> a.plus_spec(b) == b.plus_spec(a),
        a.plus_spec(Usage::zero_spec()) == Some(a),
        Usage::zero_spec().plus_spec(a) == Some(a),
{
}

/// The tokens of a usage are those in and those out together.
pub proof fn law_tokens_are_counted_in_and_out(a: Usage)
    ensures
        a.input_tokens + a.output_tokens <= u64::MAX ==> a.tokens() == a.input_tokens
            + a.output_tokens,
        a.input_tokens + a.output_tokens > u64::MAX ==> a.tokens() == u64::MAX,
{
}

/// A default that applies at once has no time to wait.
pub proof fn law_an_immediate_default_does_not_wait()
    ensures
        QuestionPolicy::immediate() matches QuestionPolicy::DefaultAfter { timeout } && timeout.secs
            == 0 && timeout.nanos == 0,
{
}

} // verus!
