//! The task runner: one attempt, from the request to the worker to the one
//! event that ends it.
//!
//! The runner folds the worker's events. Every event takes the next log number;
//! progress is recorded at most once per interval or on a milestone; usage is
//! added up and checked against the budget; a question pauses the attempt until
//! the answer is there. The terminal event, cancellation, the timeout and the
//! budget all end in exactly one result. Whether to try again is not decided
//! here.
use vstd::prelude::*;

use crate::commands::{
    default_answer, is_default_answer, AskQuestion, FailAttempt, RecordProgress, Recorded,
    SucceedAttempt,
};
use crate::convert::{
    route_to_worker, spec_to_worker, usage_from_worker, worker_artifact, workspace_to_worker,
    WorkerRoute, WorkerTaskSpec, WorkerUsage, WorkerWorkspace,
};
use crate::domain::{
    clone_text, Answer, ArtifactRef, AttemptId, Budget, FailureClass, Instant, Micros,
    QuestionId, QuestionOption, QuestionPolicy, Route, RunId, RunMode, Span, TaskId, TaskKind,
    TaskSpec, Usage, Workspace,
};
use crate::projections::task_log::NewTaskLogLine;
use crate::text::{
    all_space, cat, cat3, is_blank, join, join_of, prefix_of, take, trim, trim_of, views,
};

verus! {

/// Log lines that are kept back before they are written.
pub const LOG_FLUSH_AT: usize = 32;

/// Progress is recorded on every so many tool calls.
pub const TOOL_CALL_MILESTONE: u32 = 25;

/// Progress is recorded after more new tokens than this.
pub const TOKEN_MILESTONE: u64 = 50_000;

/// Message of an attempt that ended because the runtime shut down.
pub const RUNTIME_SHUTDOWN: &'static str = "runtime_shutdown";

/// Message of an attempt that took too long.
pub const ATTEMPT_TIMEOUT: &'static str = "task_attempt_timeout";

/// Message of an attempt whose question was never answered.
pub const UNANSWERED_INPUT: &'static str = "unanswered_input";

/// The longest summary, in characters, before the ellipsis.
pub const SUMMARY_LIMIT: usize = 200;

/// Everything an attempt is made of.
#[derive(Debug, PartialEq, Eq)]
pub struct AttemptSpec {
    pub run_id: RunId,
    pub task_id: TaskId,
    /// Fresh for every attempt.
    pub attempt_id: AttemptId,
    /// Counted from one.
    pub attempt_no: i32,
    pub kind: TaskKind,
    pub spec: TaskSpec,
    pub route: Route,
    pub workspace: Workspace,
    pub budget: Budget,
    pub timeout: Span,
    pub mode: RunMode,
    pub memory: Option<String>,
    pub system_prompt_append: String,
    /// Session to resume.
    pub prior_session: Option<String>,
}

/// What the saga tells a running attempt.
#[derive(Debug, PartialEq, Eq)]
pub enum RunnerInput {
    /// A question of the attempt was answered.
    Answered { question_id: QuestionId, answer: Answer },
    /// The attempt is to end as a failure of this class.
    Stop { class: FailureClass, message: String },
}

/// How an attempt ended.
#[derive(Debug, PartialEq, Eq)]
pub enum AttemptResult {
    Succeeded,
    Failed { class: FailureClass, message: String },
}

impl AttemptResult {
    /// Whether it succeeded.
    pub fn is_success(&self) -> (b: bool)
        ensures
            b == (self is Succeeded),
    {
        match self {
            AttemptResult::Succeeded => true,
            AttemptResult::Failed { .. } => false,
        }
    }

    pub open spec fn class_spec(self) -> Option<FailureClass> {
        match self {
            AttemptResult::Succeeded => None,
            AttemptResult::Failed { class, .. } => Some(class),
        }
    }

    /// The class of the failure, where it failed.
    pub fn failure_class(&self) -> (r: Option<FailureClass>)
        ensures
            r == self.class_spec(),
    {
        match self {
            AttemptResult::Succeeded => None,
            AttemptResult::Failed { class, .. } => Some(*class),
        }
    }
}

/// What the saga learns of a finished attempt.
#[derive(Debug, PartialEq, Eq)]
pub struct TaskRunnerOutcome {
    pub run_id: RunId,
    pub task_id: TaskId,
    pub attempt_id: AttemptId,
    pub kind: TaskKind,
    pub route: Route,
    pub workspace: Workspace,
    pub result: AttemptResult,
    pub usage: Usage,
    pub wall_ms: u64,
}

/// Phase of an attempt.
#[derive(Debug, Clone, Copy, PartialEq, Eq, Structural)]
pub enum Phase {
    /// The worker is being started.
    Starting,
    /// The worker's events are taken in.
    Streaming,
    /// Paused on a question.
    AwaitingInput,
    /// The output is being checked.
    Validating,
    Succeeded,
    Failed,
}

impl Phase {
    pub open spec fn name(self) -> Seq<char> {
        match self {
            Phase::Starting => "starting"@,
            Phase::Streaming => "streaming"@,
            Phase::AwaitingInput => "awaiting_input"@,
            Phase::Validating => "validating"@,
            Phase::Succeeded => "succeeded"@,
            Phase::Failed => "failed"@,
        }
    }

    /// The `snake_case` name.
    pub fn as_str(self) -> (r: &'static str)
        ensures
            r@ == self.name(),
    {
        match self {
            Phase::Starting => "starting",
            Phase::Streaming => "streaming",
            Phase::AwaitingInput => "awaiting_input",
            Phase::Validating => "validating",
            Phase::Succeeded => "succeeded",
            Phase::Failed => "failed",
        }
    }
}

/// An event of a worker before the one that ends its stream.
#[derive(Debug, PartialEq, Eq)]
#[allow(inconsistent_fields)]
pub enum WorkerEvent {
    Started { session_id: Option<String> },
    AssistantText { delta: String },
    Thinking { delta: String },
    ToolCall { name: String, input_summary: String },
    ToolResult { name: String, ok: bool },
    UsageReported { delta: WorkerUsage },
    InputRequested { question: String, options: Vec<String> },
}

/// The event that ends a worker's stream; `structured` is JSON text.
#[derive(Debug, PartialEq, Eq)]
pub enum TerminalEvent {
    Finished { text: String, structured: Option<String>, usage: WorkerUsage },
    Failed { class: FailureClass, message: String, usage: WorkerUsage },
}

/// What the worker is asked for.
#[derive(Debug, PartialEq, Eq)]
pub struct WorkerRequest {
    pub attempt_id: AttemptId,
    pub task_id: TaskId,
    pub run_id: RunId,
    pub kind: TaskKind,
    pub spec: WorkerTaskSpec,
    pub route: WorkerRoute,
    pub workspace: WorkerWorkspace,
    pub system_prompt_append: String,
    pub memory: Option<String>,
    pub prior_session: Option<String>,
    pub timeout: Span,
    pub max_tokens: Option<u64>,
}

/// Whether progress is to be recorded or log lines to be written.
#[derive(Debug, Clone, Copy, PartialEq, Eq, Structural)]
pub enum ProgressStep {
    Nothing,
    /// Write the log lines.
    Flush,
    /// Write the log lines and record progress.
    Record,
}

/// What follows an event of the worker.
#[derive(Debug, Clone, Copy, PartialEq, Eq, Structural)]
pub enum FoldStep {
    Nothing,
    Progress(ProgressStep),
    /// The usage is to be priced and checked.
    Price,
    /// The question is to be asked.
    Ask,
    /// The usages together are out of range.
    OutOfRange,
}

/// By how much a usage is over its budget.
#[derive(Debug, PartialEq, Eq)]
pub struct BudgetExcess {
    pub dimension: String,
    pub limit: String,
    pub actual: String,
}

/// What follows a priced usage.
#[derive(Debug, Clone, Copy, PartialEq, Eq, Structural)]
pub enum UsageStep {
    /// The budget is spent: cancel the attempt.
    Cancel,
    /// Add the usage to the run.
    RecordUsage,
}

/// What became of adding the usage to the run.
#[derive(Debug, Clone, Copy, PartialEq, Eq, Structural)]
pub struct UsageRecorded {
    /// The run's budget is spent now.
    pub budget_exhausted: bool,
}

/// What follows once the usage was added to the run.
#[derive(Debug, Clone, Copy, PartialEq, Eq, Structural)]
pub struct AfterUsage {
    /// Cancel the attempt.
    pub cancel: bool,
    pub progress: ProgressStep,
}

/// Where the end of the worker's stream leads.
#[derive(Debug, PartialEq, Eq)]
pub enum Settled {
    Result(AttemptResult),
    /// The output is to be checked first.
    Validate { text: String, structured: Option<String> },
}

/// The one command that ends an attempt.
#[derive(Debug, PartialEq, Eq)]
pub enum TerminalCommand {
    Succeed(SucceedAttempt),
    Fail(FailAttempt),
}

/// The summary: trimmed, cut to the limit with an ellipsis behind.
pub open spec fn summary_of(text: Seq<char>) -> Seq<char> {
    if trim_of(text).len() > SUMMARY_LIMIT {
        prefix_of(trim_of(text), SUMMARY_LIMIT as nat).push('…')
    } else {
        trim_of(text)
    }
}

/// The text trimmed and cut to the limit.
pub fn summarise(text: &str) -> (r: String)
    ensures
        r@ == summary_of(text@),
        r@.len() <= SUMMARY_LIMIT + 1,
{
    let trimmed = trim(text);
    if trimmed.as_str().unicode_len() > SUMMARY_LIMIT {
        let mut summary = take(trimmed.as_str(), SUMMARY_LIMIT);
        summary.push('…');
        summary
    } else {
        trimmed
    }
}

/// The selected labels, or else the free text.
pub open spec fn answer_text_of(answer: Answer) -> Seq<char> {
    if answer.selected@.len() == 0 {
        match answer.free_text {
            Some(text) => text@,
            None => Seq::empty(),
        }
    } else {
        join_of(views(answer.selected@), ", "@)
    }
}

/// The answer as text: the selected labels, or else the free text.
pub fn answer_text(answer: &Answer) -> (r: String)
    ensures
        r@ == answer_text_of(*answer),
{
    if answer.selected.len() == 0 {
        match &answer.free_text {
            Some(text) => text.clone(),
            None => String::new(),
        }
    } else {
        join(&answer.selected, ", ")
    }
}

/// At least `interval` lies between the two instants.
pub open spec fn has_elapsed(since: Instant, now: Instant, interval: Span) -> bool {
    let elapsed = if now < since {
        0
    } else {
        now - since
    };
    elapsed >= interval.total()
}

fn elapsed(since: Instant, now: Instant, interval: Span) -> (b: bool)
    ensures
        b == has_elapsed(since, now, interval),
{
    if now <= since {
        return interval.is_zero();
    }
    match now.checked_sub(since) {
        Some(d) => (d as u128) >= interval.as_nanos(),
        None => true,
    }
}

/// One attempt.
#[derive(Debug, PartialEq, Eq)]
pub struct TaskRunner {
    pub attempt: AttemptSpec,
    pub phase: Phase,
    pub usage: Usage,
    pub log_seq: u64,
    pub tool_calls: u32,
    pub tokens_since_progress: u64,
    pub last_progress: Instant,
    pub last_summary: String,
    pub pending_question: Option<QuestionId>,
    pub session_id: Option<String>,
    pub stop: Option<(FailureClass, String)>,
    pub terminal: Option<TerminalEvent>,
    pub artifacts: Vec<ArtifactRef>,
    pub summary: String,
    pub log_buffer: Vec<NewTaskLogLine>,
    pub cancelled: bool,
    pub timed_out: bool,
}

impl TaskRunner {
    /// The usage is well formed.
    pub open spec fn wf(self) -> bool {
        self.usage.wf()
    }

    /// A runner for `attempt`.
    pub fn new(attempt: AttemptSpec, now: Instant) -> (r: TaskRunner)
        ensures
            r.wf(),
            r.attempt == attempt,
            r.phase == Phase::Starting,
            r.usage == Usage::zero_spec(),
            r.log_seq == 0,
            r.tool_calls == 0,
            r.tokens_since_progress == 0,
            r.last_progress == now,
            r.last_summary@.len() == 0,
            r.pending_question is None,
            r.session_id is None,
            r.stop is None,
            r.terminal is None,
            r.artifacts@.len() == 0,
            r.summary@.len() == 0,
            r.log_buffer@.len() == 0,
            !r.cancelled,
            !r.timed_out,
    {
        TaskRunner {
            attempt,
            phase: Phase::Starting,
            usage: Usage::zero(),
            log_seq: 0,
            tool_calls: 0,
            tokens_since_progress: 0,
            last_progress: now,
            last_summary: String::new(),
            pending_question: None,
            session_id: None,
            stop: None,
            terminal: None,
            artifacts: Vec::new(),
            summary: String::new(),
            log_buffer: Vec::new(),
            cancelled: false,
            timed_out: false,
        }
    }

    // -- the worker ---------------------------------------------------------
    /// What the worker is asked for, or the failure.
    pub open spec fn requested(
        self,
        worker_known: bool,
        model_known: bool,
        r: Result<WorkerRequest, AttemptResult>,
    ) -> bool {
        match r {
            Err(AttemptResult::Succeeded) => false,
            Err(AttemptResult::Failed { class, message }) => {
                &&& class == FailureClass::Permanent
                &&& if !worker_known {
                    message@ == "no worker adapter registered for `"@
                        + self.attempt.route.worker.name@ + "`"@
                } else {
                    !model_known && message@ == "unknown model alias `"@
                        + self.attempt.route.model@ + "`"@
                }
            },
            Ok(w) => {
                &&& worker_known && model_known
                &&& w.attempt_id == self.attempt.attempt_id
                &&& w.task_id == self.attempt.task_id
                &&& w.run_id == self.attempt.run_id
                &&& w.kind == self.attempt.kind
                &&& w.spec.title == self.attempt.spec.title
                &&& w.spec.instructions == self.attempt.spec.instructions
                &&& w.spec.acceptance_criteria@ == self.attempt.spec.acceptance_criteria@
                &&& w.spec.depends_on@ == self.attempt.spec.depends_on@
                &&& w.spec.workspace_policy == self.attempt.spec.workspace_policy.worker()
                &&& w.spec.output_schema == self.attempt.spec.output_schema
                &&& w.spec.inputs@.len() == self.attempt.spec.inputs@.len()
                &&& forall|i: int|
                    0 <= i < w.spec.inputs@.len() ==> worker_artifact(
                        self.attempt.spec.inputs@[i],
                        #[trigger] w.spec.inputs@[i],
                    )
                &&& w.route.worker == self.attempt.route.worker.name
                &&& w.route.model == self.attempt.route.model
                &&& w.route.effort == self.attempt.route.effort
                &&& w.workspace == self.attempt.workspace.worker()
                &&& w.system_prompt_append == self.attempt.system_prompt_append
                &&& w.memory == self.attempt.memory
                &&& w.prior_session == self.attempt.prior_session
                &&& w.timeout == self.attempt.timeout
                &&& w.max_tokens == self.attempt.budget.max_tokens
            },
        }
    }

    /// What to ask the worker for, or the failure where there is no such worker
    /// or no such model.
    pub fn request(&self, worker_known: bool, model_known: bool) -> (r: Result<
        WorkerRequest,
        AttemptResult,
    >)
        ensures
            self.requested(worker_known, model_known, r),
    {
        if !worker_known {
            let message = cat3(
                "no worker adapter registered for `",
                self.attempt.route.worker.name.as_str(),
                "`",
            );
            return Err(AttemptResult::Failed { class: FailureClass::Permanent, message });
        }
        if !model_known {
            let message = cat3("unknown model alias `", self.attempt.route.model.as_str(), "`");
            return Err(AttemptResult::Failed { class: FailureClass::Permanent, message });
        }
        Ok(
            WorkerRequest {
                attempt_id: self.attempt.attempt_id,
                task_id: self.attempt.task_id,
                run_id: self.attempt.run_id,
                kind: self.attempt.kind.clone(),
                spec: spec_to_worker(&self.attempt.spec),
                route: route_to_worker(&self.attempt.route),
                workspace: workspace_to_worker(&self.attempt.workspace),
                system_prompt_append: self.attempt.system_prompt_append.clone(),
                memory: clone_text(&self.attempt.memory),
                prior_session: clone_text(&self.attempt.prior_session),
                timeout: self.attempt.timeout,
                max_tokens: self.attempt.budget.max_tokens,
            },
        )
    }

    /// The worker was started.
    pub fn on_started(&mut self)
        ensures
            *final(self) == (TaskRunner { phase: Phase::Streaming, ..*old(self) }),
    {
        self.phase = Phase::Streaming;
    }

    /// The result where the worker could not be started; the worker says of what
    /// class its error is.
    pub fn spawn_failed(class: FailureClass, error: &str) -> (r: AttemptResult)
        ensures
            r matches AttemptResult::Failed { class: c, message } && c == class && message@
                == "worker spawn failed: "@ + error@,
    {
        AttemptResult::Failed { class, message: cat("worker spawn failed: ", error) }
    }

    /// The attempt was cancelled; the worker is to be cancelled too.
    pub fn on_cancelled(&mut self)
        ensures
            *final(self) == (TaskRunner { cancelled: true, ..*old(self) }),
    {
        self.cancelled = true;
    }

    /// The attempt took too long; the worker is to be cancelled.
    pub fn on_deadline(&mut self)
        ensures
            *final(self) == (TaskRunner { timed_out: true, ..*old(self) }),
    {
        self.timed_out = true;
    }

    /// The saga ends the attempt; the worker is to be cancelled. The last request
    /// counts.
    pub fn on_stop(&mut self, class: FailureClass, message: String)
        ensures
            *final(self) == (TaskRunner { stop: Some((class, message)), ..*old(self) }),
    {
        self.stop = Some((class, message));
    }

    /// The worker's last event. A later one takes its place.
    pub fn on_terminal(&mut self, event: TerminalEvent)
        ensures
            *final(self) == (TaskRunner { terminal: Some(event), ..*old(self) }),
    {
        self.terminal = Some(event);
    }

    // -- folding ------------------------------------------------------------
    /// Keeps a log line for the event that is about to be folded.
    pub fn log(&mut self, kind: String, payload: String, now: Micros)
        ensures
            *final(self) == (TaskRunner { log_buffer: final(self).log_buffer, ..*old(self) }),
            final(self).log_buffer@ == old(self).log_buffer@.push(
                (NewTaskLogLine {
                    task_id: old(self).attempt.task_id,
                    attempt: old(self).attempt.attempt_no,
                    at: now,
                    kind,
                    payload,
                    run_id: Some(old(self).attempt.run_id),
                    attempt_id: Some(old(self).attempt.attempt_id),
                    source_event_id: None,
                }),
            ),
    {
        let line = NewTaskLogLine::new(
            self.attempt.task_id,
            self.attempt.attempt_no,
            kind,
            payload,
            now,
        ).run(self.attempt.run_id).attempt_id(self.attempt.attempt_id);
        self.log_buffer.push(line);
    }

    /// Takes the kept log lines in order to write them.
    pub fn take_log(&mut self) -> (r: Vec<NewTaskLogLine>)
        ensures
            r@ == old(self).log_buffer@,
            *final(self) == (TaskRunner { log_buffer: final(self).log_buffer, ..*old(self) }),
            final(self).log_buffer@.len() == 0,
    {
        let mut lines: Vec<NewTaskLogLine> = Vec::new();
        std::mem::swap(&mut lines, &mut self.log_buffer);
        lines
    }

    /// The state once the log lines were written.
    pub open spec fn flushed(self, last: Option<u64>) -> TaskRunner {
        TaskRunner {
            log_seq: match last {
                Some(n) if n > self.log_seq => n,
                _ => self.log_seq,
            },
            ..self
        }
    }

    /// The log lines were written, the last of them under the number `last`.
    pub fn on_flushed(&mut self, last: Option<u64>)
        ensures
            *final(self) == old(self).flushed(last),
    {
        if let Some(n) = last {
            if n > self.log_seq {
                self.log_seq = n;
            }
        }
    }

    /// Whether progress is recorded now: only while the attempt streams and there
    /// is something to say, and then when the interval is over or on a milestone.
    pub open spec fn progress_step(self, milestone: bool, now: Instant, interval: Span) -> ProgressStep {
        if self.phase != Phase::Streaming || self.last_summary@.len() == 0 {
            ProgressStep::Nothing
        } else if milestone || has_elapsed(self.last_progress, now, interval) {
            ProgressStep::Record
        } else if self.log_buffer@.len() >= LOG_FLUSH_AT {
            ProgressStep::Flush
        } else {
            ProgressStep::Nothing
        }
    }

    /// Whether progress is recorded now.
    pub fn maybe_progress(&self, milestone: bool, now: Instant, interval: Span) -> (r: ProgressStep)
        ensures
            r == self.progress_step(milestone, now, interval),
    {
        if self.phase != Phase::Streaming || self.last_summary.as_str().unicode_len() == 0 {
            return ProgressStep::Nothing;
        }
        let due = elapsed(self.last_progress, now, interval);
        if due || milestone {
            ProgressStep::Record
        } else if self.log_buffer.len() >= LOG_FLUSH_AT {
            ProgressStep::Flush
        } else {
            ProgressStep::Nothing
        }
    }

    /// The command that records progress.
    pub fn progress(&self) -> (r: RecordProgress)
        ensures
            r == (RecordProgress {
                attempt_id: self.attempt.attempt_id,
                summary: self.last_summary,
                usage_delta: Usage::zero_spec(),
                log_seq: self.log_seq,
            }),
    {
        RecordProgress {
            attempt_id: self.attempt.attempt_id,
            summary: self.last_summary.clone(),
            usage_delta: Usage::zero(),
            log_seq: self.log_seq,
        }
    }

    /// What became of recording progress: only where it was done does the
    /// interval start anew.
    pub fn on_progress(&mut self, recorded: Recorded, now: Instant)
        ensures
            recorded == Recorded::Done ==> *final(self) == (TaskRunner {
                last_progress: now,
                tokens_since_progress: 0,
                ..*old(self)
            }),
            recorded != Recorded::Done ==> *final(self) == *old(self),
    {
        if recorded == Recorded::Done {
            self.last_progress = now;
            self.tokens_since_progress = 0;
        }
    }

    /// The last summary after an event, where the event changes it.
    pub open spec fn summary_after(event: WorkerEvent) -> Option<Seq<char>> {
        match event {
            WorkerEvent::AssistantText { delta } => if all_space(delta@) {
                None
            } else {
                Some(summary_of(delta@))
            },
            WorkerEvent::Thinking { delta } => if all_space(delta@) {
                None
            } else {
                Some(summary_of(delta@))
            },
            WorkerEvent::ToolCall { name, input_summary } => Some(
                summary_of(name@ + ": "@ + input_summary@),
            ),
            WorkerEvent::ToolResult { name, ok } => Some(
                summary_of(
                    name@ + " → "@ + if ok {
                        "ok"@
                    } else {
                        "err"@
                    },
                ),
            ),
            _ => None,
        }
    }

    /// The event is a tool call on a milestone.
    pub open spec fn on_milestone(self, event: WorkerEvent) -> bool {
        event is ToolCall && (self.tool_calls + 1) % (TOOL_CALL_MILESTONE as int) == 0
    }

    /// The state after an event that is not out of range.
    pub open spec fn folded(self, event: WorkerEvent, next: TaskRunner) -> bool {
        &&& next == (TaskRunner {
            log_seq: (self.log_seq + 1) as u64,
            last_summary: next.last_summary,
            tool_calls: if event is ToolCall {
                (self.tool_calls + 1) as u32
            } else {
                self.tool_calls
            },
            session_id: match event {
                WorkerEvent::Started { session_id } => session_id,
                _ => self.session_id,
            },
            usage: match event {
                WorkerEvent::UsageReported { delta } => self.usage.plus_spec(delta.domain())->0,
                _ => self.usage,
            },
            tokens_since_progress: match event {
                WorkerEvent::UsageReported { delta } => crate::domain::sat_add(
                    self.tokens_since_progress,
                    delta.domain().tokens(),
                ),
                _ => self.tokens_since_progress,
            },
            ..self
        })
        &&& match TaskRunner::summary_after(event) {
            Some(summary) => next.last_summary@ == summary,
            None => next.last_summary == self.last_summary,
        }
    }

    /// What an event leads to: the state after it, and what follows.
    pub open spec fn taken_in(
        self,
        event: WorkerEvent,
        now: Instant,
        interval: Span,
        next: TaskRunner,
        step: FoldStep,
    ) -> bool {
        &&& step == FoldStep::OutOfRange <==> (event matches WorkerEvent::UsageReported { delta }
            && self.usage.plus_spec(delta.domain()) is None)
        &&& step == FoldStep::OutOfRange ==> next == self
        &&& step != FoldStep::OutOfRange ==> self.folded(event, next)
        &&& step != FoldStep::OutOfRange ==> step == (match event {
            WorkerEvent::Started { .. } => FoldStep::Nothing,
            WorkerEvent::UsageReported { .. } => FoldStep::Price,
            WorkerEvent::InputRequested { .. } => FoldStep::Ask,
            _ => FoldStep::Progress(
                next.progress_step(self.on_milestone(event), now, interval),
            ),
        })
    }

    /// Takes in one event of the worker before the last, and says what follows.
    pub fn fold(&mut self, event: &WorkerEvent, now: Instant, interval: Span) -> (r: FoldStep)
        requires
            old(self).wf(),
            old(self).log_seq < u64::MAX,
            old(self).tool_calls < u32::MAX,
            event matches WorkerEvent::UsageReported { delta } ==> delta.domain().wf(),
        ensures
            final(self).wf(),
            old(self).taken_in(*event, now, interval, *final(self), r),
    {
        match event {
            WorkerEvent::Started { session_id } => {
                self.log_seq = self.log_seq + 1;
                self.session_id = clone_text(session_id);
                FoldStep::Nothing
            },
            WorkerEvent::AssistantText { delta } => {
                self.log_seq = self.log_seq + 1;
                if !is_blank(delta.as_str()) {
                    self.last_summary = summarise(delta.as_str());
                }
                FoldStep::Progress(self.maybe_progress(false, now, interval))
            },
            WorkerEvent::Thinking { delta } => {
                self.log_seq = self.log_seq + 1;
                if !is_blank(delta.as_str()) {
                    self.last_summary = summarise(delta.as_str());
                }
                FoldStep::Progress(self.maybe_progress(false, now, interval))
            },
            WorkerEvent::ToolCall { name, input_summary } => {
                self.log_seq = self.log_seq + 1;
                self.tool_calls = self.tool_calls + 1;
                let text = cat3(name.as_str(), ": ", input_summary.as_str());
                self.last_summary = summarise(text.as_str());
                let milestone = self.tool_calls % TOOL_CALL_MILESTONE == 0;
                FoldStep::Progress(self.maybe_progress(milestone, now, interval))
            },
            WorkerEvent::ToolResult { name, ok } => {
                self.log_seq = self.log_seq + 1;
                let outcome = if *ok {
                    "ok"
                } else {
                    "err"
                };
                let text = cat3(name.as_str(), " → ", outcome);
                self.last_summary = summarise(text.as_str());
                FoldStep::Progress(self.maybe_progress(false, now, interval))
            },
            WorkerEvent::UsageReported { delta } => {
                let delta = usage_from_worker(delta);
                match self.usage.plus(&delta) {
                    Some(total) => {
                        self.log_seq = self.log_seq + 1;
                        self.usage = total;
                        self.tokens_since_progress =
                        self.tokens_since_progress.saturating_add(delta.total_tokens());
                        FoldStep::Price
                    },
                    None => FoldStep::OutOfRange,
                }
            },
            WorkerEvent::InputRequested { .. } => {
                self.log_seq = self.log_seq + 1;
                FoldStep::Ask
            },
        }
    }

    // -- usage --------------------------------------------------------------
    pub open spec fn excess_text(excess: BudgetExcess) -> Seq<char> {
        "task budget exhausted: "@ + excess.dimension@ + " limit "@ + excess.limit@
            + " exceeded by "@ + excess.actual@
    }

    /// What a priced usage leads to.
    pub open spec fn priced(
        self,
        priced: Usage,
        excess: Option<BudgetExcess>,
        next: TaskRunner,
        step: UsageStep,
    ) -> bool {
        match excess {
            None => step == UsageStep::RecordUsage && next == (TaskRunner { usage: priced, ..self
            }),
            Some(e) => step == UsageStep::Cancel && next == (TaskRunner {
                usage: priced,
                stop: next.stop,
                ..self
            }) && (next.stop matches Some((class, message)) && class == FailureClass::Budget
                && message@ == TaskRunner::excess_text(e)),
        }
    }

    /// Takes the priced usage; `excess` says by how much it is over the task's
    /// budget. An attempt over its budget is stopped.
    pub fn on_priced(&mut self, priced: Usage, excess: Option<BudgetExcess>) -> (r: UsageStep)
        requires
            priced.wf(),
        ensures
            final(self).wf(),
            old(self).priced(priced, excess, *final(self), r),
    {
        self.usage = priced;
        match excess {
            None => UsageStep::RecordUsage,
            Some(e) => {
                let mut message = cat("task budget exhausted: ", e.dimension.as_str());
                message.append(" limit ");
                message.append(e.limit.as_str());
                message.append(" exceeded by ");
                message.append(e.actual.as_str());
                self.stop = Some((FailureClass::Budget, message));
                UsageStep::Cancel
            },
        }
    }

    /// What adding the usage to the run leads to.
    pub open spec fn usage_recorded(
        self,
        recorded: Option<UsageRecorded>,
        now: Instant,
        interval: Span,
        next: TaskRunner,
        r: AfterUsage,
    ) -> bool {
        &&& r.cancel == (recorded matches Some(u) && u.budget_exhausted)
        &&& r.progress == self.progress_step(
            self.tokens_since_progress > TOKEN_MILESTONE,
            now,
            interval,
        )
        &&& !r.cancel ==> next == self
        &&& r.cancel ==> next == (TaskRunner { stop: next.stop, ..self }) && (
        next.stop matches Some((class, message)) && class == FailureClass::Budget && message@
            == "run budget exhausted"@)
    }

    /// The usage was added to the run, or not (`None`). Where that spent the
    /// run's budget the attempt is stopped.
    pub fn on_usage_recorded(
        &mut self,
        recorded: Option<UsageRecorded>,
        now: Instant,
        interval: Span,
    ) -> (r: AfterUsage)
        ensures
            old(self).usage_recorded(recorded, now, interval, *final(self), r),
    {
        let cancel = match recorded {
            Some(u) => u.budget_exhausted,
            None => false,
        };
        if cancel {
            self.stop = Some((FailureClass::Budget, "run budget exhausted".to_owned()));
        }
        let milestone = self.tokens_since_progress > TOKEN_MILESTONE;
        AfterUsage { cancel, progress: self.maybe_progress(milestone, now, interval) }
    }

    // -- questions ----------------------------------------------------------
    /// The policy of a worker's question: interactive runs wait, Kohral runs take
    /// the default at once, other runs after the timeout.
    pub open spec fn question_policy(mode: RunMode, timeout: Span) -> QuestionPolicy {
        match mode {
            RunMode::Interactive => QuestionPolicy::Block,
            RunMode::Kohral { .. } => QuestionPolicy::immediate(),
            RunMode::Headless => QuestionPolicy::DefaultAfter { timeout },
        }
    }

    /// The question that is asked for the worker.
    pub open spec fn asks(
        self,
        question_id: QuestionId,
        text: String,
        labels: Seq<String>,
        timeout: Span,
        question: Option<AskQuestion>,
    ) -> bool {
        &&& question is Some <==> self.pending_question is None
        &&& question matches Some(ask) ==> {
            &&& ask.question_id == question_id
            &&& ask.run_id == self.attempt.run_id
            &&& ask.task_id == Some(self.attempt.task_id)
            &&& ask.text == text
            &&& ask.options@.len() == labels.len()
            &&& forall|i: int|
                0 <= i < labels.len() ==> (#[trigger] ask.options@[i]) == (QuestionOption {
                    label: labels[i],
                    description: None,
                    recommended: i == 0,
                })
            &&& !ask.multi_select
            &&& ask.policy == TaskRunner::question_policy(self.attempt.mode, timeout)
            &&& if self.attempt.mode is Interactive || labels.len() == 0 {
                ask.default is None
            } else {
                ask.default matches Some(answer) && is_default_answer(answer, labels[0]@)
            }
        }
    }

    /// The question to ask for the worker; nothing while another one is open.
    /// The first option is the recommended one, and the default wherever the run
    /// is not interactive.
    pub fn question(
        &self,
        question_id: QuestionId,
        text: String,
        labels: &Vec<String>,
        timeout: Span,
    ) -> (r: Option<AskQuestion>)
        ensures
            self.asks(question_id, text, labels@, timeout, r),
    {
        if self.pending_question.is_some() {
            return None;
        }
        let mut options: Vec<QuestionOption> = Vec::new();
        let mut i: usize = 0;
        while i < labels.len()
            invariant
                i <= labels@.len(),
                options@.len() == i,
                forall|k: int|
                    0 <= k < i ==> (#[trigger] options@[k]) == (QuestionOption {
                        label: labels@[k],
                        description: None,
                        recommended: k == 0,
                    }),
            decreases labels@.len() - i,
        {
            options.push(
                QuestionOption {
                    label: labels[i].clone(),
                    description: None,
                    recommended: i == 0,
                },
            );
            i = i + 1;
        }
        let default = if self.attempt.mode.is_interactive() || labels.len() == 0 {
            None
        } else {
            Some(default_answer(labels[0].as_str()))
        };
        let policy = match &self.attempt.mode {
            RunMode::Interactive => QuestionPolicy::Block,
            RunMode::Kohral { .. } => QuestionPolicy::immediate_default(),
            RunMode::Headless => QuestionPolicy::DefaultAfter { timeout },
        };
        Some(
            AskQuestion {
                question_id,
                run_id: self.attempt.run_id,
                task_id: Some(self.attempt.task_id),
                text,
                options,
                multi_select: false,
                default,
                policy,
            },
        )
    }

    /// The question was asked, and the task notes that it waits for the answer.
    pub fn on_asked(&mut self, question_id: QuestionId)
        ensures
            *final(self) == (TaskRunner {
                pending_question: Some(question_id),
                phase: Phase::AwaitingInput,
                ..*old(self)
            }),
    {
        self.pending_question = Some(question_id);
        self.phase = Phase::AwaitingInput;
    }

    /// Whether an answer is the one that the attempt waits for.
    pub fn awaits(&self, question_id: QuestionId) -> (b: bool)
        ensures
            b == (self.pending_question == Some(question_id)),
    {
        match self.pending_question {
            Some(id) => id == question_id,
            None => false,
        }
    }

    /// What an answer leads to.
    pub open spec fn answer_taken(
        self,
        question_id: QuestionId,
        answer: Answer,
        recorded: Recorded,
        next: TaskRunner,
    ) -> bool {
        &&& self.pending_question != Some(question_id) || recorded == Recorded::Failed ==> next
            == self
        &&& self.pending_question == Some(question_id) && recorded == Recorded::InvalidTransition
            ==> next == (TaskRunner { pending_question: None, phase: Phase::Streaming, ..self })
        &&& self.pending_question == Some(question_id) && recorded == Recorded::Done ==> {
            &&& next == (TaskRunner {
                pending_question: None,
                phase: Phase::Streaming,
                last_summary: next.last_summary,
                ..self
            })
            &&& next.last_summary@ == summary_of(answer_text_of(answer))
        }
    }

    /// What became of noting on the task that the answer arrived. Where it was
    /// noted, or the task was past it already, the attempt goes on.
    pub fn on_answer(&mut self, question_id: QuestionId, answer: &Answer, recorded: Recorded)
        ensures
            old(self).answer_taken(question_id, *answer, recorded, *final(self)),
    {
        if !self.awaits(question_id) {
            return;
        }
        match recorded {
            Recorded::Done => {
                self.pending_question = None;
                self.phase = Phase::Streaming;
                let text = answer_text(answer);
                self.last_summary = summarise(text.as_str());
            },
            Recorded::InvalidTransition => {
                self.pending_question = None;
                self.phase = Phase::Streaming;
            },
            Recorded::Failed => {},
        }
    }

    /// A question is open and nothing else ends the attempt.
    pub open spec fn waits(self) -> bool {
        !self.cancelled && !self.timed_out && self.stop is None && self.pending_question is Some
    }

    /// Whether the stream ended while a question is open, so that the attempt
    /// waits for the answer.
    pub fn must_wait(&self) -> (b: bool)
        ensures
            b == self.waits(),
    {
        !self.cancelled && !self.timed_out && self.stop.is_none() && self.pending_question.is_some()
    }

    /// What it leads to that no answer will come any more.
    pub open spec fn wait_over(self, next: TaskRunner) -> bool {
        &&& !self.waits() ==> next == self
        &&& self.waits() ==> next == (TaskRunner { stop: next.stop, ..self }) && (
        next.stop matches Some((class, message)) && class == FailureClass::Transient && message@
            == UNANSWERED_INPUT@)
    }

    /// No answer will come any more: an attempt that waits for one fails. What ends
    /// the attempt otherwise stays.
    pub fn on_wait_over(&mut self)
        ensures
            old(self).wait_over(*final(self)),
    {
        if self.must_wait() {
            self.stop = Some((FailureClass::Transient, UNANSWERED_INPUT.to_owned()));
        }
    }

    // -- the end ------------------------------------------------------------
    /// The worker's own total takes the place of what was added up, unless it is
    /// nothing at all.
    pub open spec fn final_usage(self, reported: WorkerUsage) -> Usage {
        if reported.domain() == Usage::zero_spec() {
            self.usage
        } else {
            reported.domain()
        }
    }

    /// What the end of the stream leads to.
    pub open spec fn settled(self, next: TaskRunner, r: Settled) -> bool {
        match self.stop {
            Some((class, message)) => r == Settled::Result(
                AttemptResult::Failed { class, message },
            ) && next == (TaskRunner { stop: None, ..self }),
            None => if self.cancelled {
                (r matches Settled::Result(AttemptResult::Failed { class, message }) && class
                    == FailureClass::Cancelled && message@ == "run cancelled"@)
                    && next == self
            } else if self.timed_out {
                (r matches Settled::Result(AttemptResult::Failed { class, message }) && class
                    == FailureClass::Transient && message@ == ATTEMPT_TIMEOUT@)
                    && next == self
            } else {
                match self.terminal {
                    None => (r matches Settled::Result(
                        AttemptResult::Failed { class, message },
                    ) && class == FailureClass::Transient && message@
                        == "worker stream ended without a terminal event"@)
                        && next == self,
                    Some(TerminalEvent::Finished { text, structured, usage }) => r
                        == (Settled::Validate { text, structured }) && next == (
                    TaskRunner {
                        terminal: None,
                        usage: self.final_usage(usage),
                        ..self
                    }),
                    Some(TerminalEvent::Failed { class, message, usage }) => r
                        == Settled::Result(AttemptResult::Failed { class, message })
                        && next == (TaskRunner {
                        terminal: None,
                        usage: self.final_usage(usage),
                        ..self
                    }),
                }
            },
        }
    }

    /// The result of the stream: a stop goes before a cancellation, that before
    /// the timeout, and that before the worker's own last event. A stream without
    /// a last event is a failure.
    pub fn settle(&mut self) -> (r: Settled)
        requires
            old(self).wf(),
            old(self).terminal matches Some(TerminalEvent::Finished { usage, .. })
                ==> usage.domain().wf(),
            old(self).terminal matches Some(TerminalEvent::Failed { usage, .. })
                ==> usage.domain().wf(),
        ensures
            final(self).wf(),
            old(self).settled(*final(self), r),
    {
        if let Some((class, message)) = self.stop.take() {
            return Settled::Result(AttemptResult::Failed { class, message });
        }
        if self.cancelled {
            return Settled::Result(
                AttemptResult::Failed {
                    class: FailureClass::Cancelled,
                    message: "run cancelled".to_owned(),
                },
            );
        }
        if self.timed_out {
            return Settled::Result(
                AttemptResult::Failed {
                    class: FailureClass::Transient,
                    message: ATTEMPT_TIMEOUT.to_owned(),
                },
            );
        }
        match self.terminal.take() {
            Some(TerminalEvent::Finished { text, structured, usage }) => {
                let total = usage_from_worker(&usage);
                if !total.is_zero() {
                    self.usage = total;
                }
                Settled::Validate { text, structured }
            },
            Some(TerminalEvent::Failed { class, message, usage }) => {
                let total = usage_from_worker(&usage);
                if !total.is_zero() {
                    self.usage = total;
                }
                Settled::Result(AttemptResult::Failed { class, message })
            },
            None => Settled::Result(
                AttemptResult::Failed {
                    class: FailureClass::Transient,
                    message: "worker stream ended without a terminal event".to_owned(),
                },
            ),
        }
    }

    /// What the check of an output leads to.
    pub open spec fn validated(
        self,
        text: Seq<char>,
        violation: Option<String>,
        transcript: Option<ArtifactRef>,
        next: TaskRunner,
        r: AttemptResult,
    ) -> bool {
        let accepted = self.attempt.spec.output_schema is None || violation is None;
        &&& next == (TaskRunner {
            phase: Phase::Validating,
            artifacts: next.artifacts,
            summary: next.summary,
            ..self
        })
        &&& next.artifacts@ == (match transcript {
            Some(artifact) => seq![artifact],
            None => Seq::empty(),
        })
        &&& if accepted {
            r == AttemptResult::Succeeded && next.summary@ == summary_of(text)
        } else {
            (r matches AttemptResult::Failed { class, message } && class
                == FailureClass::Permanent && message@ == "output schema violation: "@
                + violation->0@) && next.summary == self.summary
        }
    }

    /// The result for an output: without a schema it stands, and with one only
    /// where `violation` is nothing.
    pub fn validate(
        &mut self,
        text: &str,
        violation: Option<String>,
        transcript: Option<ArtifactRef>,
    ) -> (r: AttemptResult)
        ensures
            old(self).validated(text@, violation, transcript, *final(self), r),
    {
        self.phase = Phase::Validating;
        let mut artifacts: Vec<ArtifactRef> = Vec::new();
        if let Some(artifact) = transcript {
            artifacts.push(artifact);
        }
        self.artifacts = artifacts;
        let wants_schema = self.attempt.spec.output_schema.is_some();
        match violation {
            Some(error) if wants_schema => AttemptResult::Failed {
                class: FailureClass::Permanent,
                message: cat("output schema violation: ", error.as_str()),
            },
            _ => {
                self.summary = summarise(text);
                AttemptResult::Succeeded
            },
        }
    }

    /// The state of an attempt that took `wall_ms` milliseconds.
    pub open spec fn elapsed(self, wall_ms: u64) -> TaskRunner {
        TaskRunner {
            usage: Usage {
                wall_ms: if self.usage.wall_ms < wall_ms {
                    wall_ms
                } else {
                    self.usage.wall_ms
                },
                ..self.usage
            },
            ..self
        }
    }

    /// The attempt took `wall_ms` milliseconds: the usage counts at least that.
    pub fn on_elapsed(&mut self, wall_ms: u64)
        ensures
            *final(self) == old(self).elapsed(wall_ms),
    {
        if self.usage.wall_ms < wall_ms {
            self.usage.wall_ms = wall_ms;
        }
    }

    /// The command records the result.
    pub open spec fn ends_with(self, result: AttemptResult, command: TerminalCommand) -> bool {
        match result {
            AttemptResult::Succeeded => command matches TerminalCommand::Succeed(cmd)
                && cmd.attempt_id == self.attempt.attempt_id && cmd.artifacts@
                == self.artifacts@ && cmd.usage == self.usage && cmd.summary == self.summary,
            AttemptResult::Failed { class, message } => command == TerminalCommand::Fail(
                FailAttempt {
                    attempt_id: self.attempt.attempt_id,
                    class,
                    message,
                    usage: self.usage,
                },
            ),
        }
    }

    /// The one command that records the result.
    pub fn terminal_command(&self, result: &AttemptResult) -> (r: TerminalCommand)
        ensures
            self.ends_with(*result, r),
    {
        match result {
            AttemptResult::Succeeded => TerminalCommand::Succeed(
                SucceedAttempt {
                    attempt_id: self.attempt.attempt_id,
                    artifacts: copy_artifacts(&self.artifacts),
                    usage: self.usage,
                    summary: self.summary.clone(),
                },
            ),
            AttemptResult::Failed { class, message } => TerminalCommand::Fail(
                FailAttempt {
                    attempt_id: self.attempt.attempt_id,
                    class: *class,
                    message: message.clone(),
                    usage: self.usage,
                },
            ),
        }
    }

    /// The phase in which an attempt with this result ends.
    pub open spec fn last_phase(result: AttemptResult) -> Phase {
        if result is Succeeded {
            Phase::Succeeded
        } else {
            Phase::Failed
        }
    }

    /// What the saga learns of the attempt.
    pub open spec fn outcome(self, result: AttemptResult, wall_ms: u64) -> TaskRunnerOutcome {
        TaskRunnerOutcome {
            run_id: self.attempt.run_id,
            task_id: self.attempt.task_id,
            attempt_id: self.attempt.attempt_id,
            kind: self.attempt.kind,
            route: self.attempt.route,
            workspace: self.attempt.workspace,
            result,
            usage: self.usage,
            wall_ms,
        }
    }

    /// The result was recorded: the attempt is over.
    pub fn finish(self, result: AttemptResult, wall_ms: u64) -> (r: (Phase, TaskRunnerOutcome))
        ensures
            r.0 == TaskRunner::last_phase(result),
            r.1 == self.outcome(result, wall_ms),
    {
        let phase = if result.is_success() {
            Phase::Succeeded
        } else {
            Phase::Failed
        };
        let outcome = TaskRunnerOutcome {
            run_id: self.attempt.run_id,
            task_id: self.attempt.task_id,
            attempt_id: self.attempt.attempt_id,
            kind: self.attempt.kind,
            route: self.attempt.route,
            workspace: self.attempt.workspace,
            result,
            usage: self.usage,
            wall_ms,
        };
        (phase, outcome)
    }
}

/// A copy of the artifacts.
pub fn copy_artifacts(items: &Vec<ArtifactRef>) -> (r: Vec<ArtifactRef>)
    ensures
        r@ == items@,
{
    let mut out: Vec<ArtifactRef> = Vec::new();
    let mut i: usize = 0;
    while i < items.len()
        invariant
            i <= items@.len(),
            out@ == items@.subrange(0, i as int),
        decreases items@.len() - i,
    {
        out.push(items[i].clone());
        i = i + 1;
        assert(out@ =~= items@.subrange(0, i as int));
    }
    assert(items@.subrange(0, items@.len() as int) =~= items@);
    out
}

// ---------------------------------------------------------------------------
// Laws
// ---------------------------------------------------------------------------
/// Log numbers only grow, by one for every event that is folded.
pub proof fn law_log_numbers_grow(before: TaskRunner, event: WorkerEvent, after: TaskRunner)
    requires
        before.log_seq < u64::MAX,
        before.folded(event, after),
    ensures
        after.log_seq == before.log_seq + 1,
{
}

/// Nothing is recorded while the attempt waits for an answer.
pub proof fn law_no_progress_while_waiting(
    runner: TaskRunner,
    milestone: bool,
    now: Instant,
    interval: Span,
)
    requires
        runner.phase == Phase::AwaitingInput,
    ensures
        runner.progress_step(milestone, now, interval) == ProgressStep::Nothing,
{
}

/// Off a milestone, progress that was recorded at `last` is not recorded again
/// until the interval is over.
pub proof fn law_progress_is_throttled(
    runner: TaskRunner,
    last: Instant,
    now: Instant,
    interval: Span,
)
    requires
        runner.last_progress == last,
        now - last < interval.total(),
        interval.total() > 0,
    ensures
        runner.progress_step(false, now, interval) != ProgressStep::Record,
{
}

/// A summary is never longer than the limit and the ellipsis, and summing up a
/// text that is short and trimmed changes nothing.
pub proof fn law_summaries_are_bounded(text: Seq<char>)
    ensures
        summary_of(text).len() <= SUMMARY_LIMIT + 1,
        trim_of(text) == text && text.len() <= SUMMARY_LIMIT ==> summary_of(text) == text,
{
}

/// `a + b`, and no more than the largest count.
pub open spec fn capped(a: int, b: int) -> int {
    if a + b > 0xffff_ffff_ffff_ffff {
        0xffff_ffff_ffff_ffff
    } else {
        a + b
    }
}

/// Usage adds up: after a report every counter of the attempt is the earlier one
/// and the reported one together, capped at the largest count, and what was
/// reported counts towards the next progress. No other event changes the usage.
pub proof fn law_usage_adds_up(
    before: TaskRunner,
    event: WorkerEvent,
    now: Instant,
    interval: Span,
    after: TaskRunner,
    step: FoldStep,
)
    requires
        before.taken_in(event, now, interval, after, step),
    ensures
        event matches WorkerEvent::UsageReported { delta } ==> step != FoldStep::OutOfRange ==> {
            &&& step == FoldStep::Price
            &&& after.usage.input_tokens == capped(
                before.usage.input_tokens as int,
                delta.input_tokens as int,
            )
            &&& after.usage.output_tokens == capped(
                before.usage.output_tokens as int,
                delta.output_tokens as int,
            )
            &&& after.usage.cache_read_tokens == capped(
                before.usage.cache_read_tokens as int,
                delta.cache_read_tokens as int,
            )
            &&& after.usage.cache_write_tokens == capped(
                before.usage.cache_write_tokens as int,
                delta.cache_write_tokens as int,
            )
            &&& after.usage.wall_ms == capped(before.usage.wall_ms as int, delta.wall_ms as int)
            &&& delta.cost_usd is None ==> after.usage.cost_usd == before.usage.cost_usd
            &&& before.usage.cost_usd is None ==> after.usage.cost_usd == delta.cost_usd
            &&& before.usage.cost_usd is Some && delta.cost_usd is Some ==> after.usage.cost_usd
                == before.usage.cost_usd->0.plus_spec(delta.cost_usd->0)
            &&& after.tokens_since_progress == capped(
                before.tokens_since_progress as int,
                capped(delta.input_tokens as int, delta.output_tokens as int),
            )
        },
        !(event is UsageReported) ==> step != FoldStep::OutOfRange && step != FoldStep::Price
            && after.usage == before.usage && after.tokens_since_progress
            == before.tokens_since_progress,
        step == FoldStep::OutOfRange ==> after == before,
{
}

/// One counter of the reports among the events, summed up.
pub open spec fn reported(events: Seq<WorkerEvent>, count: spec_fn(WorkerUsage) -> int) -> int
    decreases events.len(),
{
    if events.len() == 0 {
        0
    } else {
        reported(events.drop_last(), count) + match events.last() {
            WorkerEvent::UsageReported { delta } => count(delta),
            _ => 0,
        }
    }
}

/// `b` is the state `a` after the event, at some time.
pub open spec fn follows(a: TaskRunner, event: WorkerEvent, b: TaskRunner) -> bool {
    exists|now: Instant, interval: Span, step: FoldStep|
        step != FoldStep::OutOfRange && #[trigger] a.taken_in(event, now, interval, b, step)
}

/// `runners` are the states of an attempt before, between and after `events`.
pub open spec fn stream(runners: Seq<TaskRunner>, events: Seq<WorkerEvent>) -> bool {
    &&& runners.len() == events.len() + 1
    &&& forall|i: int|
        0 <= i < events.len() ==> follows(runners[i], #[trigger] events[i], runners[i + 1])
}

/// Over a stream of events each counter is the sum of all reports, capped at the
/// largest count: none is left out and none counts twice.
pub proof fn law_a_stream_of_reports_is_summed_up(
    runners: Seq<TaskRunner>,
    events: Seq<WorkerEvent>,
)
    requires
        stream(runners, events),
    ensures
        ({
            let first = runners[0].usage;
            let last = runners.last().usage;
            &&& last.input_tokens == capped(
                first.input_tokens as int,
                reported(events, |u: WorkerUsage| u.input_tokens as int),
            )
            &&& last.output_tokens == capped(
                first.output_tokens as int,
                reported(events, |u: WorkerUsage| u.output_tokens as int),
            )
            &&& last.cache_read_tokens == capped(
                first.cache_read_tokens as int,
                reported(events, |u: WorkerUsage| u.cache_read_tokens as int),
            )
            &&& last.cache_write_tokens == capped(
                first.cache_write_tokens as int,
                reported(events, |u: WorkerUsage| u.cache_write_tokens as int),
            )
            &&& last.wall_ms == capped(
                first.wall_ms as int,
                reported(events, |u: WorkerUsage| u.wall_ms as int),
            )
        }),
    decreases events.len(),
{
    if events.len() > 0 {
        let n = events.len() - 1;
        let head = runners.drop_last();
        let rest = events.drop_last();
        assert forall|i: int| 0 <= i < rest.len() implies follows(
            head[i],
            #[trigger] rest[i],
            head[i + 1],
        ) by {
            assert(rest[i] == events[i]);
        }
        law_a_stream_of_reports_is_summed_up(head, rest);
        lemma_reports_are_counts(rest);
        assert(head.last() == runners[n] && head[0] == runners[0]);
        assert(follows(runners[n], events[n], runners[n + 1]));
        let (now, interval, step) = choose|now: Instant, interval: Span, step: FoldStep|
            step != FoldStep::OutOfRange && #[trigger] runners[n].taken_in(
                events[n],
                now,
                interval,
                runners[n + 1],
                step,
            );
        law_usage_adds_up(runners[n], events[n], now, interval, runners[n + 1], step);
    }
}

proof fn lemma_reports_are_counts(events: Seq<WorkerEvent>)
    ensures
        reported(events, |u: WorkerUsage| u.input_tokens as int) >= 0,
        reported(events, |u: WorkerUsage| u.output_tokens as int) >= 0,
        reported(events, |u: WorkerUsage| u.cache_read_tokens as int) >= 0,
        reported(events, |u: WorkerUsage| u.cache_write_tokens as int) >= 0,
        reported(events, |u: WorkerUsage| u.wall_ms as int) >= 0,
    decreases events.len(),
{
    if events.len() > 0 {
        lemma_reports_are_counts(events.drop_last());
    }
}

/// What an event of the worker changes besides the usage: a session it announces
/// is kept, a tool call is counted, text that is not blank becomes the summary; it
/// always takes a log number and never ends, pauses or moves the attempt.
pub proof fn law_events_are_folded(
    before: TaskRunner,
    event: WorkerEvent,
    now: Instant,
    interval: Span,
    after: TaskRunner,
    step: FoldStep,
)
    requires
        before.taken_in(event, now, interval, after, step),
        step != FoldStep::OutOfRange,
        before.log_seq < u64::MAX,
        before.tool_calls < u32::MAX,
    ensures
        after.log_seq == before.log_seq + 1,
        event is ToolCall ==> after.tool_calls == before.tool_calls + 1,
        !(event is ToolCall) ==> after.tool_calls == before.tool_calls,
        event matches WorkerEvent::Started { session_id } ==> after.session_id == session_id
            && step == FoldStep::Nothing,
        !(event is Started) ==> after.session_id == before.session_id,
        event is InputRequested ==> step == FoldStep::Ask && after.last_summary
            == before.last_summary,
        event is UsageReported ==> step == FoldStep::Price && after.last_summary
            == before.last_summary,
        event matches WorkerEvent::AssistantText { delta } ==> step is Progress && (all_space(
            delta@,
        ) ==> after.last_summary == before.last_summary) && (!all_space(delta@) ==> (trim_of(
            delta@,
        ).len() <= 200 ==> after.last_summary@ == trim_of(delta@))),
        event matches WorkerEvent::Thinking { delta } ==> step is Progress && (all_space(delta@)
            ==> after.last_summary == before.last_summary) && (!all_space(delta@) ==> (trim_of(
            delta@,
        ).len() <= 200 ==> after.last_summary@ == trim_of(delta@))),
        event matches WorkerEvent::ToolCall { name, input_summary } ==> step is Progress
            && after.last_summary@ == summary_of(name@ + ": "@ + input_summary@),
        event matches WorkerEvent::ToolResult { name, ok } ==> step is Progress && (ok
            ==> after.last_summary@ == summary_of(name@ + " → "@ + "ok"@)) && (!ok
            ==> after.last_summary@ == summary_of(name@ + " → "@ + "err"@)),
        after.phase == before.phase,
        after.stop == before.stop,
        after.terminal == before.terminal,
        after.cancelled == before.cancelled,
        after.timed_out == before.timed_out,
        after.pending_question == before.pending_question,
        after.last_progress == before.last_progress,
        after.attempt == before.attempt,
        after.artifacts == before.artifacts,
        after.summary == before.summary,
        after.log_buffer == before.log_buffer,
{
}

/// Progress is recorded exactly while the attempt streams, has something to say,
/// and its interval is over or a milestone is reached; off these, lines that have
/// piled up are written.
pub proof fn law_progress_is_recorded_when_due(
    runner: TaskRunner,
    milestone: bool,
    now: Instant,
    interval: Span,
)
    requires
        now >= runner.last_progress,
    ensures
        runner.progress_step(milestone, now, interval) == ProgressStep::Record <==> runner.phase
            == Phase::Streaming && runner.last_summary@.len() > 0 && (milestone || now
            - runner.last_progress >= interval.secs * 1_000_000_000 + interval.nanos),
        runner.progress_step(milestone, now, interval) == ProgressStep::Flush <==> runner.phase
            == Phase::Streaming && runner.last_summary@.len() > 0 && !(milestone || now
            - runner.last_progress >= interval.secs * 1_000_000_000 + interval.nanos)
            && runner.log_buffer@.len() >= 32,
{
}

/// Every twenty-fifth tool call of a streaming attempt is recorded, whatever the
/// time.
pub proof fn law_tool_calls_are_milestones(
    before: TaskRunner,
    event: WorkerEvent,
    now: Instant,
    interval: Span,
    after: TaskRunner,
    step: FoldStep,
)
    requires
        before.taken_in(event, now, interval, after, step),
        event is ToolCall,
        before.phase == Phase::Streaming,
        (before.tool_calls + 1) % 25 == 0,
        after.last_summary@.len() > 0,
    ensures
        step == FoldStep::Progress(ProgressStep::Record),
{
}

/// An attempt over its task's budget is cancelled and ends with the budget; one
/// within it has its usage added to the run and goes on. Either way the priced
/// usage counts from then on.
pub proof fn law_the_budget_is_kept(
    before: TaskRunner,
    usage: Usage,
    excess: Option<BudgetExcess>,
    after: TaskRunner,
    step: UsageStep,
)
    requires
        before.priced(usage, excess, after, step),
    ensures
        after.usage == usage,
        excess is Some <==> step == UsageStep::Cancel,
        excess is None ==> after.stop == before.stop,
        excess is Some ==> (after.stop matches Some((class, _)) && class == FailureClass::Budget),
        after == (TaskRunner { usage, stop: after.stop, ..before }),
{
}

/// An attempt whose usage spent the run's budget is cancelled and ends with the
/// budget. Otherwise it goes on, and many new tokens are a milestone.
pub proof fn law_the_runs_budget_is_kept(
    before: TaskRunner,
    recorded: Option<UsageRecorded>,
    now: Instant,
    interval: Span,
    after: TaskRunner,
    r: AfterUsage,
)
    requires
        before.usage_recorded(recorded, now, interval, after, r),
    ensures
        recorded == Some(UsageRecorded { budget_exhausted: true }) ==> r.cancel && (
        after.stop matches Some((class, _)) && class == FailureClass::Budget),
        recorded == Some(UsageRecorded { budget_exhausted: false }) ==> !r.cancel && after == before,
        recorded is None ==> !r.cancel && after == before,
        before.phase == Phase::Streaming && before.last_summary@.len() > 0
            && before.tokens_since_progress > 50_000 ==> r.progress == ProgressStep::Record,
        after.usage == before.usage,
{
}

/// A worker's question goes out once at a time, to the run and for the task, with
/// all its options; the first is recommended. In an interactive run it waits for a
/// person; elsewhere the first option is the default, at once in a Kohral run and
/// after the timeout otherwise.
pub proof fn law_a_workers_question_is_asked(
    runner: TaskRunner,
    question_id: QuestionId,
    text: String,
    labels: Seq<String>,
    timeout: Span,
    question: Option<AskQuestion>,
)
    requires
        runner.asks(question_id, text, labels, timeout, question),
    ensures
        runner.pending_question is Some <==> question is None,
        question matches Some(ask) ==> {
            &&& ask.question_id == question_id
            &&& ask.run_id == runner.attempt.run_id
            &&& ask.task_id == Some(runner.attempt.task_id)
            &&& ask.text == text
            &&& !ask.multi_select
            &&& ask.options@.len() == labels.len()
            &&& forall|i: int|
                0 <= i < labels.len() ==> (#[trigger] ask.options@[i]).label == labels[i] && (
                ask.options@[i].recommended <==> i == 0)
            &&& runner.attempt.mode is Interactive ==> ask.policy == QuestionPolicy::Block
                && ask.default is None
            &&& runner.attempt.mode is Kohral ==> ask.policy == (QuestionPolicy::DefaultAfter {
                timeout: Span { secs: 0, nanos: 0 },
            })
            &&& runner.attempt.mode is Headless ==> ask.policy == (QuestionPolicy::DefaultAfter {
                timeout,
            })
            &&& labels.len() == 0 ==> ask.default is None
            &&& !(runner.attempt.mode is Interactive) && labels.len() > 0 ==> (
            ask.default matches Some(answer) && answer.selected@.len() == 1
                && answer.selected@[0]@ == labels[0]@ && answer.free_text is None)
        },
{
}

/// Only the answer that the attempt waits for lets it go on, and it is forgotten
/// with the question; one that could not be noted leaves the attempt waiting.
pub proof fn law_the_awaited_answer_resumes_the_attempt(
    before: TaskRunner,
    question_id: QuestionId,
    answer: Answer,
    recorded: Recorded,
    after: TaskRunner,
)
    requires
        before.answer_taken(question_id, answer, recorded, after),
    ensures
        before.pending_question == Some(question_id) && recorded != Recorded::Failed
            ==> after.phase == Phase::Streaming && after.pending_question is None,
        before.pending_question != Some(question_id) ==> after == before,
        recorded == Recorded::Failed ==> after == before,
        after.usage == before.usage,
        after.stop == before.stop,
        after.terminal == before.terminal,
        after.cancelled == before.cancelled,
        after.timed_out == before.timed_out,
        after.log_seq == before.log_seq,
        before.pending_question == Some(question_id) && recorded == Recorded::Done
            && answer.selected@.len() == 0 && answer.free_text is Some ==> after.last_summary@
            == summary_of(answer.free_text->0@),
        before.pending_question == Some(question_id) && recorded == Recorded::Done
            && answer.selected@.len() > 0 ==> after.last_summary@ == summary_of(
            join_of(views(answer.selected@), ", "@),
        ),
{
}

/// An attempt waits for its answer only while nothing else ends it; when no answer
/// comes it fails, and may be tried again.
pub proof fn law_an_unanswered_attempt_fails(before: TaskRunner, after: TaskRunner)
    requires
        before.wait_over(after),
    ensures
        before.waits() <==> before.pending_question is Some && before.stop is None
            && !before.cancelled && !before.timed_out,
        before.pending_question is Some && before.stop is None && !before.cancelled
            && !before.timed_out ==> (after.stop matches Some((class, message)) && class
            == FailureClass::Transient && message@ == "unanswered_input"@),
        before.stop is Some ==> after.stop == before.stop,
        before.pending_question is None ==> after == before,
        after == (TaskRunner { stop: after.stop, ..before }),
{
}

/// How a stream ends: as the saga demands where it stopped the attempt; otherwise
/// as cancelled where the run was, as a passing fault where it took too long or
/// the worker went away without a word, and otherwise as the worker itself said.
/// What the worker says it used in all takes the place of what was added up.
pub proof fn law_a_stop_goes_before_the_workers_word(
    before: TaskRunner,
    after: TaskRunner,
    r: Settled,
)
    requires
        before.settled(after, r),
    ensures
        before.stop matches Some((class, message)) ==> r == Settled::Result(
            AttemptResult::Failed { class, message },
        ) && after.stop is None && after.usage == before.usage,
        before.stop is None && before.cancelled ==> (r matches Settled::Result(
            AttemptResult::Failed { class, .. },
        ) && class == FailureClass::Cancelled) && after == before,
        before.stop is None && !before.cancelled && before.timed_out ==> (
        r matches Settled::Result(AttemptResult::Failed { class, message }) && class
            == FailureClass::Transient && message@ == "task_attempt_timeout"@) && after == before,
        before.stop is None && !before.cancelled && !before.timed_out ==> match before.terminal {
            None => (r matches Settled::Result(AttemptResult::Failed { class, .. }) && class
                == FailureClass::Transient) && after == before,
            Some(TerminalEvent::Finished { text, structured, usage }) => {
                &&& r == (Settled::Validate { text, structured })
                &&& usage.input_tokens > 0 || usage.output_tokens > 0 || usage.cost_usd is Some
                    ==> after.usage.input_tokens == usage.input_tokens && after.usage.output_tokens
                    == usage.output_tokens && after.usage.cache_read_tokens
                    == usage.cache_read_tokens && after.usage.cache_write_tokens
                    == usage.cache_write_tokens && after.usage.cost_usd == usage.cost_usd
                    && after.usage.wall_ms == usage.wall_ms
                &&& usage.input_tokens == 0 && usage.output_tokens == 0 && usage.cache_read_tokens
                    == 0 && usage.cache_write_tokens == 0 && usage.cost_usd is None && usage.wall_ms
                    == 0 ==> after.usage == before.usage
            },
            Some(TerminalEvent::Failed { class, message, usage }) => {
                &&& r == Settled::Result(AttemptResult::Failed { class, message })
                &&& usage.input_tokens > 0 || usage.output_tokens > 0 || usage.cost_usd is Some
                    ==> after.usage.input_tokens == usage.input_tokens && after.usage.output_tokens
                    == usage.output_tokens && after.usage.cost_usd == usage.cost_usd
                &&& usage.input_tokens == 0 && usage.output_tokens == 0 && usage.cache_read_tokens
                    == 0 && usage.cache_write_tokens == 0 && usage.cost_usd is None && usage.wall_ms
                    == 0 ==> after.usage == before.usage
            },
        },
        r is Validate ==> before.stop is None && !before.cancelled && !before.timed_out
            && before.terminal is Some && before.terminal->0 is Finished,
        r != Settled::Result(AttemptResult::Succeeded),
{
}

/// An output stands unless a schema was asked for and is violated; then the attempt
/// fails for good. The transcript is kept either way.
pub proof fn law_outputs_meet_their_schema(
    before: TaskRunner,
    text: Seq<char>,
    violation: Option<String>,
    transcript: Option<ArtifactRef>,
    after: TaskRunner,
    r: AttemptResult,
)
    requires
        before.validated(text, violation, transcript, after, r),
    ensures
        r is Succeeded <==> before.attempt.spec.output_schema is None || violation is None,
        r matches AttemptResult::Failed { class, message } ==> class == FailureClass::Permanent
            && message@ == "output schema violation: "@ + violation->0@,
        r is Succeeded ==> after.summary@ == summary_of(text),
        transcript matches Some(artifact) ==> after.artifacts@ == seq![artifact],
        transcript is None ==> after.artifacts@.len() == 0,
        after.usage == before.usage,
        after.phase == Phase::Validating,
{
}

/// The time of an attempt is the longer of what was reported and what went by.
pub proof fn law_an_attempt_takes_its_time(runner: TaskRunner, wall_ms: u64)
    ensures
        runner.elapsed(wall_ms).usage.wall_ms >= wall_ms,
        runner.elapsed(wall_ms).usage.wall_ms >= runner.usage.wall_ms,
        runner.elapsed(wall_ms).usage.wall_ms == wall_ms || runner.elapsed(wall_ms).usage.wall_ms
            == runner.usage.wall_ms,
        runner.elapsed(wall_ms).usage.input_tokens == runner.usage.input_tokens,
        runner.elapsed(wall_ms).usage.output_tokens == runner.usage.output_tokens,
        runner.elapsed(wall_ms).usage.cost_usd == runner.usage.cost_usd,
{
}

/// An attempt ends in one command: success with its artifacts, its usage and its
/// summary, or failure with its class, its message and its usage; and the saga
/// learns the same.
pub proof fn law_an_attempt_ends_once(
    runner: TaskRunner,
    result: AttemptResult,
    command: TerminalCommand,
    wall_ms: u64,
)
    requires
        runner.ends_with(result, command),
    ensures
        command is Succeed <==> result is Succeeded,
        command matches TerminalCommand::Succeed(c) ==> c.attempt_id == runner.attempt.attempt_id
            && c.usage == runner.usage && c.summary == runner.summary && c.artifacts@
            == runner.artifacts@,
        command matches TerminalCommand::Fail(c) ==> c.attempt_id == runner.attempt.attempt_id
            && c.usage == runner.usage && result == (AttemptResult::Failed {
            class: c.class,
            message: c.message,
        }),
        runner.outcome(result, wall_ms).result == result,
        runner.outcome(result, wall_ms).usage == runner.usage,
        runner.outcome(result, wall_ms).task_id == runner.attempt.task_id,
        runner.outcome(result, wall_ms).attempt_id == runner.attempt.attempt_id,
        runner.outcome(result, wall_ms).run_id == runner.attempt.run_id,
        runner.outcome(result, wall_ms).route == runner.attempt.route,
        runner.outcome(result, wall_ms).workspace == runner.attempt.workspace,
        runner.outcome(result, wall_ms).wall_ms == wall_ms,
        result is Succeeded ==> TaskRunner::last_phase(result) == Phase::Succeeded,
        result is Failed ==> TaskRunner::last_phase(result) == Phase::Failed,
{
}

/// Writing log lines never takes the number back.
pub proof fn law_log_numbers_never_go_back(runner: TaskRunner, last: Option<u64>)
    ensures
        runner.flushed(last).log_seq >= runner.log_seq,
        last matches Some(n) ==> runner.flushed(last).log_seq >= n,
        runner.flushed(last).log_seq == runner.log_seq || Some(runner.flushed(last).log_seq) == last,
{
}

/// A summary shows the text itself: the trimmed text where it is short, and else
/// its first two hundred characters with an ellipsis behind.
pub proof fn law_summaries_show_the_text(text: Seq<char>, i: int)
    requires
        0 <= i < trim_of(text).len(),
    ensures
        trim_of(text).len() <= 200 ==> summary_of(text) == trim_of(text),
        trim_of(text).len() > 200 ==> summary_of(text).len() == 201 && summary_of(text).last()
            == '…',
        trim_of(text).len() > 200 && i < 200 ==> summary_of(text)[i] == trim_of(text)[i],
{
}

/// A worker is asked for exactly what the attempt is about: its task as it was
/// specified, on its route, in its workspace, with its session and within its
/// limits.
pub proof fn law_the_worker_is_asked_for_the_attempt(
    runner: TaskRunner,
    worker_known: bool,
    model_known: bool,
    r: Result<WorkerRequest, AttemptResult>,
    i: int,
)
    requires
        runner.requested(worker_known, model_known, r),
    ensures
        r is Ok <==> worker_known && model_known,
        r matches Err(e) ==> (e matches AttemptResult::Failed { class, .. } && class
            == FailureClass::Permanent),
        r matches Ok(w) ==> w.attempt_id == runner.attempt.attempt_id && w.task_id
            == runner.attempt.task_id && w.run_id == runner.attempt.run_id && w.kind
            == runner.attempt.kind,
        r matches Ok(w) ==> w.spec.title == runner.attempt.spec.title && w.spec.instructions
            == runner.attempt.spec.instructions && w.spec.acceptance_criteria@
            == runner.attempt.spec.acceptance_criteria@ && w.spec.output_schema
            == runner.attempt.spec.output_schema && w.spec.depends_on@
            == runner.attempt.spec.depends_on@,
        r matches Ok(w) ==> (w.spec.workspace_policy == crate::convert::WorkerPolicy::ReadOnly
            <==> runner.attempt.spec.workspace_policy == crate::domain::WorkspacePolicy::ReadOnly),
        r matches Ok(w) ==> w.spec.inputs@.len() == runner.attempt.spec.inputs@.len(),
        r matches Ok(w) ==> 0 <= i < w.spec.inputs@.len() ==> w.spec.inputs@[i].id
            == runner.attempt.spec.inputs@[i].id && w.spec.inputs@[i].uri
            == runner.attempt.spec.inputs@[i].uri,
        r matches Ok(w) ==> w.route.worker == runner.attempt.route.worker.name && w.route.model
            == runner.attempt.route.model && w.route.effort == runner.attempt.route.effort,
        r matches Ok(w) ==> w.workspace.root == runner.attempt.workspace.root && w.workspace.kind
            == runner.attempt.workspace.kind && w.workspace.base_rev
            == runner.attempt.workspace.base_rev,
        r matches Ok(w) ==> w.memory == runner.attempt.memory && w.prior_session
            == runner.attempt.prior_session && w.system_prompt_append
            == runner.attempt.system_prompt_append,
        r matches Ok(w) ==> w.timeout == runner.attempt.timeout && w.max_tokens
            == runner.attempt.budget.max_tokens,
{
}


} // verus!
