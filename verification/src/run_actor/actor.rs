//! The actor's state, what it makes of its inputs, and how it advances.
use std::collections::{BTreeMap, BTreeSet};

use vstd::prelude::*;

use super::view::{
    RunChange, SagaEnvelope, SagaEvent, SagaModel, SagaView, TaskChange,
};
use crate::domain::{
    AttemptId, FailureClass, Goal, Instant, QuestionId, QuestionPolicy,
    QuestionStatus, RepoKind, Route, RunId, RunMode, RunStatus, Span, TaskId,
};
use crate::events::RunFailureReason;
use crate::ids::{uuid_text, uuid_text_of};
use crate::maps::{ascending, keys_of};
use crate::ports::Lesson;
use crate::task_runner::{RUNTIME_SHUTDOWN, UNANSWERED_INPUT};
use crate::text::{cat, cat3};

verus! {

broadcast use vstd::std_specs::btree::group_btree_axioms;

/// Messages that fit into an actor's mailbox.
pub const MAILBOX_CAPACITY: usize = 1024;

/// Message of an attempt that was running when the process died.
pub const RUNTIME_RESTARTED: &'static str = "runtime_restarted";

// ---------------------------------------------------------------------------
// Failures
// ---------------------------------------------------------------------------
/// Why the run is to fail.
#[derive(Debug, PartialEq, Eq)]
pub struct Failure {
    pub reason: RunFailureReason,
    pub class: FailureClass,
    pub message: Option<String>,
}

/// A reason as a value.
pub ghost enum ReasonView {
    BudgetExhausted,
    IntegrationFailed,
    InvalidPlan,
    PlanRevisionLimit,
    RuntimeRestarted,
    TaskFailed,
    UnansweredQuestion,
    Other(Seq<char>),
}

impl ReasonView {
    pub open spec fn label(self) -> Seq<char> {
        match self {
            ReasonView::BudgetExhausted => "budget_exhausted"@,
            ReasonView::IntegrationFailed => "integration_failed"@,
            ReasonView::InvalidPlan => "invalid_plan"@,
            ReasonView::PlanRevisionLimit => "plan_revision_limit"@,
            ReasonView::RuntimeRestarted => "runtime_restarted"@,
            ReasonView::TaskFailed => "task_failed"@,
            ReasonView::UnansweredQuestion => "unanswered_question"@,
            ReasonView::Other(name) => name,
        }
    }
}

impl View for RunFailureReason {
    type V = ReasonView;

    open spec fn view(&self) -> ReasonView {
        match self {
            RunFailureReason::BudgetExhausted => ReasonView::BudgetExhausted,
            RunFailureReason::IntegrationFailed => ReasonView::IntegrationFailed,
            RunFailureReason::InvalidPlan => ReasonView::InvalidPlan,
            RunFailureReason::PlanRevisionLimit => ReasonView::PlanRevisionLimit,
            RunFailureReason::RuntimeRestarted => ReasonView::RuntimeRestarted,
            RunFailureReason::TaskFailed => ReasonView::TaskFailed,
            RunFailureReason::UnansweredQuestion => ReasonView::UnansweredQuestion,
            RunFailureReason::Other(name) => ReasonView::Other(name@),
        }
    }
}

/// A failure as a value.
pub ghost struct FailureView {
    pub reason: ReasonView,
    pub class: FailureClass,
    pub message: Option<Seq<char>>,
}

/// An optional text as a value.
pub open spec fn text_view(text: Option<String>) -> Option<Seq<char>> {
    match text {
        Some(t) => Some(t@),
        None => None,
    }
}

impl View for Failure {
    type V = FailureView;

    open spec fn view(&self) -> FailureView {
        FailureView {
            reason: self.reason@,
            class: self.class,
            message: text_view(self.message),
        }
    }
}

/// Every running attempt is to end as a failure of this class.
#[derive(Debug, PartialEq, Eq)]
pub struct StopAll {
    pub class: FailureClass,
    pub message: String,
}

/// The class under which the running attempts of a failing run end.
pub open spec fn stop_class(class: FailureClass) -> FailureClass {
    if class == FailureClass::Budget {
        FailureClass::Budget
    } else {
        FailureClass::Cancelled
    }
}

/// What a request to fail the run leads to.
pub open spec fn failure_requested(
    was: ActorModel,
    failure: FailureView,
    next: ActorModel,
    stop: Option<StopAll>,
) -> bool {
    match was.failing(failure) {
        Some(after) => next == after && (stop matches Some(s) && s.class == stop_class(
            failure.class,
        ) && s.message@ == failure.reason.label()),
        None => stop is None && next == was,
    }
}

// ---------------------------------------------------------------------------
// State
// ---------------------------------------------------------------------------
/// The actor's state as values.
pub ghost struct ActorModel {
    pub run_id: RunId,
    pub view: SagaModel,
    /// The running attempts.
    pub handles: Map<TaskId, AttemptId>,
    pub routes: Map<TaskId, Route>,
    pub routed: Set<TaskId>,
    pub needs_route: Set<TaskId>,
    /// Aliases that failed, by task.
    pub excluded: Map<TaskId, Seq<String>>,
    pub retrying: Set<TaskId>,
    pub skipping: Set<TaskId>,
    pub noted: Set<TaskId>,
    pub outcomes_recorded: Set<AttemptId>,
    pub answered_forwarded: Set<QuestionId>,
    pub noted_questions: Set<QuestionId>,
    pub pending: Option<FailureView>,
    pub integration_summary: Seq<char>,
    pub integration_task: Option<TaskId>,
    pub integration_retried: bool,
    pub integration_in_flight: bool,
    pub evaluation_in_flight: bool,
    pub understanding_started: bool,
    pub planning_in_flight: bool,
    pub tasks_created: bool,
    pub draining: bool,
    pub shutting_down: bool,
    pub mailbox_closed: bool,
}

/// One run's saga.
#[derive(Debug)]
pub struct RunActor {
    pub run_id: RunId,
    pub view: SagaView,
    pub handles: BTreeMap<TaskId, AttemptId>,
    pub routes: BTreeMap<TaskId, Route>,
    pub routed: BTreeSet<TaskId>,
    pub needs_route: BTreeSet<TaskId>,
    pub excluded: BTreeMap<TaskId, Vec<String>>,
    pub retrying: BTreeSet<TaskId>,
    pub skipping: BTreeSet<TaskId>,
    pub noted: BTreeSet<TaskId>,
    pub outcomes_recorded: BTreeSet<AttemptId>,
    pub answered_forwarded: BTreeSet<QuestionId>,
    pub noted_questions: BTreeSet<QuestionId>,
    pub pending_failure: Option<Failure>,
    pub integration_summary: String,
    pub integration_task: Option<TaskId>,
    pub integration_retried: bool,
    pub integration_in_flight: bool,
    pub evaluation_in_flight: bool,
    pub understanding_started: bool,
    pub planning_in_flight: bool,
    pub tasks_created: bool,
    pub draining: bool,
    pub shutting_down: bool,
    pub mailbox_closed: bool,
}

/// The lists in a map as values.
pub open spec fn lists(m: Map<TaskId, Vec<String>>) -> Map<TaskId, Seq<String>> {
    m.map_values(|v: Vec<String>| v@)
}

impl View for RunActor {
    type V = ActorModel;

    open spec fn view(&self) -> ActorModel {
        ActorModel {
            run_id: self.run_id,
            view: self.view@,
            handles: self.handles@,
            routes: self.routes@,
            routed: self.routed@,
            needs_route: self.needs_route@,
            excluded: lists(self.excluded@),
            retrying: self.retrying@,
            skipping: self.skipping@,
            noted: self.noted@,
            outcomes_recorded: self.outcomes_recorded@,
            answered_forwarded: self.answered_forwarded@,
            noted_questions: self.noted_questions@,
            pending: match self.pending_failure {
                Some(failure) => Some(failure@),
                None => None,
            },
            integration_summary: self.integration_summary@,
            integration_task: self.integration_task,
            integration_retried: self.integration_retried,
            integration_in_flight: self.integration_in_flight,
            evaluation_in_flight: self.evaluation_in_flight,
            understanding_started: self.understanding_started,
            planning_in_flight: self.planning_in_flight,
            tasks_created: self.tasks_created,
            draining: self.draining,
            shutting_down: self.shutting_down,
            mailbox_closed: self.mailbox_closed,
        }
    }
}

/// What an actor's mailbox carries.
#[derive(Debug, PartialEq, Eq)]
pub enum SagaInput {
    Event(SagaEnvelope),
    /// Start no more attempts.
    Drain,
    /// End everything.
    Shutdown,
    /// The timer went off.
    Tick,
}

/// What follows a message.
#[derive(Debug, PartialEq, Eq)]
#[allow(inconsistent_fields)]
pub enum InputStep {
    Event(EventStep),
    Nothing,
    /// End the running attempts and cancel what is left of them.
    Stop(StopAll),
    /// Expire these questions; where the run has reached its time, `elapsed` says
    /// how long it took, in nanoseconds.
    Tick { due: Vec<QuestionId>, elapsed: Option<u128> },
}

/// What follows an event of the run itself.
#[derive(Debug, PartialEq, Eq)]
pub enum RunStep {
    Nothing,
    /// The run is to fail: end the running attempts.
    Stop(StopAll),
    /// The run is over: cancel the running attempts.
    CancelAttempts,
    /// The same, and a lesson may be stored.
    CancelAndRemember,
}

/// What follows an event of a question.
#[derive(Debug, PartialEq, Eq)]
pub enum QuestionStep {
    Nothing,
    /// Apply the default now.
    Expire,
    /// Hand the answer to the task's attempt.
    Forward(TaskId),
    /// Note the answer on the run.
    Note,
    /// End the task's attempt, whose question nobody answered.
    StopTask(TaskId),
    /// The run is to fail: end the running attempts.
    Stop(StopAll),
}

/// What follows an event.
#[derive(Debug, PartialEq, Eq)]
pub enum EventStep {
    /// The event was a duplicate or is not followed.
    Ignored,
    Run(RunStep),
    /// The tasks are to be reconciled.
    Task,
    Question(QuestionStep),
}

/// What the run needs next.
#[derive(Debug, PartialEq, Eq)]
pub enum AdvanceStep {
    Nothing,
    /// Record that the run failed.
    FailRun(Failure),
    /// Run the planner's first call; `needs_start` where its start is not on
    /// record.
    Understand { needs_start: bool },
    /// Run the planner's second call.
    Plan,
    /// Create the tasks, reconcile them and schedule.
    Execute,
    /// Reconcile the tasks, schedule and integrate.
    Integrate,
    /// Have the run judged.
    Evaluate,
}

// ---------------------------------------------------------------------------
// Model
// ---------------------------------------------------------------------------
impl ActorModel {
    /// The state after a request to fail the run: the first one counts, and none
    /// after the run is over.
    pub open spec fn failing(self, failure: FailureView) -> Option<ActorModel> {
        if self.pending is Some || self.view.run.status.terminal() {
            None
        } else {
            Some(ActorModel { pending: Some(failure), ..self })
        }
    }

    /// The actor is done: the run is over or the actor shuts down, and no child
    /// is left.
    pub open spec fn finished(self, runners_left: bool, jobs_left: bool) -> bool {
        !runners_left && !jobs_left && (self.shutting_down || (self.view.run.exists
            && self.view.run.status.terminal() && (self.pending is None || self.mailbox_closed)))
    }

    /// The state after an event of a task was taken in.
    pub open spec fn task_changed(self, change: TaskChange, id: TaskId) -> ActorModel {
        match change {
            TaskChange::Retried => ActorModel {
                retrying: self.retrying.remove(id),
                routed: self.routed.remove(id),
                needs_route: self.needs_route.insert(id),
                ..self
            },
            TaskChange::AttemptFailed => if self.routes.contains_key(id) {
                ActorModel {
                    excluded: self.excluded.insert(
                        id,
                        self.excluded_of(id).push(self.routes[id].model),
                    ),
                    ..self
                }
            } else {
                self
            },
            _ => self,
        }
    }

    /// The aliases that failed on a task.
    pub open spec fn excluded_of(self, id: TaskId) -> Seq<String> {
        if self.excluded.contains_key(id) {
            self.excluded[id]
        } else {
            Seq::empty()
        }
    }

    /// The time a question has been open is over.
    pub open spec fn is_due(self, id: QuestionId, now: Instant) -> bool {
        &&& self.view.questions.contains_key(id)
        &&& self.view.questions[id].status == QuestionStatus::Open
        &&& self.view.questions[id].policy matches Some(QuestionPolicy::DefaultAfter { timeout })
            && timeout.total() <= longest_timeout() && self.view.asked_at.contains_key(id) && now
            >= self.view.asked_at[id] + timeout.total()
    }
}

impl ActorModel {
    /// How long a run that goes on has taken, where that is as long as its budget
    /// allows or longer.
    pub open spec fn time_reached(self, now: Instant) -> Option<u128> {
        match (self.view.started_at, self.view.run.budget.max_wall) {
            (Some(started), Some(max_wall)) => if self.pending is None
                && !self.view.run.status.terminal() && time_between(started, now)
                >= max_wall.total() {
                Some(time_between(started, now) as u128)
            } else {
                None
            },
            _ => None,
        }
    }
}

/// The longest timeout that a clock duration holds, in nanoseconds.
pub open spec fn longest_timeout() -> int {
    i64::MAX * 1_000_000
}

/// The time from `since` to `now`, and nothing where that is before.
pub open spec fn time_between(since: Instant, now: Instant) -> nat {
    if now <= since {
        0
    } else {
        (now - since) as nat
    }
}

fn between(since: Instant, now: Instant) -> (r: u128)
    ensures
        r == time_between(since, now),
{
    if now <= since {
        0
    } else if since >= 0 || now < 0 {
        (now - since) as u128
    } else {
        (now as u128) + ((-(since + 1)) as u128) + 1
    }
}

fn deadline_passed(at: Instant, timeout: Span, now: Instant) -> (b: bool)
    ensures
        b == (timeout.total() <= longest_timeout() && now >= at + timeout.total()),
{
    let nanos: u128 = timeout.as_nanos();
    if nanos > 9_223_372_036_854_775_807_000_000 {
        return false;
    }
    now >= at && between(at, now) >= nanos
}

impl RunActor {
    /// An actor that starts from `view`.
    pub fn new(run_id: RunId, view: SagaView) -> (r: RunActor)
        ensures
            r@ == (ActorModel {
                run_id,
                view: view@,
                handles: Map::empty(),
                routes: Map::empty(),
                routed: Set::empty(),
                needs_route: Set::empty(),
                excluded: Map::empty(),
                retrying: Set::empty(),
                skipping: Set::empty(),
                noted: Set::empty(),
                outcomes_recorded: Set::empty(),
                answered_forwarded: Set::empty(),
                noted_questions: Set::empty(),
                pending: None,
                integration_summary: Seq::empty(),
                integration_task: None,
                integration_retried: false,
                integration_in_flight: false,
                evaluation_in_flight: false,
                understanding_started: false,
                planning_in_flight: false,
                tasks_created: false,
                draining: false,
                shutting_down: false,
                mailbox_closed: false,
            }),
    {
        let actor = RunActor {
            run_id,
            view,
            handles: BTreeMap::new(),
            routes: BTreeMap::new(),
            routed: BTreeSet::new(),
            needs_route: BTreeSet::new(),
            excluded: BTreeMap::new(),
            retrying: BTreeSet::new(),
            skipping: BTreeSet::new(),
            noted: BTreeSet::new(),
            outcomes_recorded: BTreeSet::new(),
            answered_forwarded: BTreeSet::new(),
            noted_questions: BTreeSet::new(),
            pending_failure: None,
            integration_summary: String::new(),
            integration_task: None,
            integration_retried: false,
            integration_in_flight: false,
            evaluation_in_flight: false,
            understanding_started: false,
            planning_in_flight: false,
            tasks_created: false,
            draining: false,
            shutting_down: false,
            mailbox_closed: false,
        };
        assert(lists(actor.excluded@) =~= Map::empty());
        actor
    }

    /// Whether the actor is done: the run is over or the actor shuts down, and
    /// no child is left.
    pub fn is_finished(&self, runners_left: bool, jobs_left: bool) -> (b: bool)
        ensures
            b == self@.finished(runners_left, jobs_left),
    {
        let terminal = self.view.run.exists && self.view.run.status.is_terminal();
        let quiet = !runners_left && !jobs_left;
        (terminal && quiet && self.pending_failure.is_none()) || (self.shutting_down && quiet) || (
        self.mailbox_closed && quiet && terminal)
    }

    // -- failure ------------------------------------------------------------
    /// The run is to fail. Says how to end the running attempts; nothing where a
    /// failure is pending already or the run is over.
    pub fn request_failure(&mut self, failure: Failure) -> (r: Option<StopAll>)
        ensures
            failure_requested(old(self)@, failure@, final(self)@, r),
    {
        if self.pending_failure.is_some() || self.view.run.status.is_terminal() {
            return None;
        }
        let class = match failure.class {
            FailureClass::Budget => FailureClass::Budget,
            _ => FailureClass::Cancelled,
        };
        let message = failure.reason.name();
        self.pending_failure = Some(failure);
        Some(StopAll { class, message })
    }

    // -- inputs -------------------------------------------------------------
    /// Takes a message and says what follows.
    pub fn on_input(&mut self, input: SagaInput, now: Instant) -> (r: InputStep)
        ensures
            match input {
                SagaInput::Event(envelope) => r matches InputStep::Event(step) && event_taken(
                    old(self)@,
                    envelope,
                    final(self)@,
                    step,
                ),
                SagaInput::Drain => r == InputStep::Nothing && final(self)@ == (ActorModel {
                    draining: true,
                    ..old(self)@
                }),
                SagaInput::Shutdown => if old(self)@.shutting_down {
                    r == InputStep::Nothing && final(self)@ == old(self)@
                } else {
                    final(self)@ == (ActorModel {
                        shutting_down: true,
                        draining: true,
                        ..old(self)@
                    }) && (r matches InputStep::Stop(stop) && stop.class == FailureClass::Transient
                        && stop.message@ == RUNTIME_SHUTDOWN@)
                },
                SagaInput::Tick => final(self)@ == old(self)@ && (r matches InputStep::Tick {
                    due,
                    elapsed,
                } && elapsed == old(self)@.time_reached(now) && ascending(due@) && forall|
                    id: QuestionId,
                | due@.contains(id) <==> #[trigger] old(self)@.is_due(id, now)),
            },
    {
        match input {
            SagaInput::Event(envelope) => InputStep::Event(self.on_event(envelope)),
            SagaInput::Drain => {
                self.on_drain();
                InputStep::Nothing
            },
            SagaInput::Shutdown => match self.begin_shutdown() {
                Some(stop) => InputStep::Stop(stop),
                None => InputStep::Nothing,
            },
            SagaInput::Tick => {
                let due = self.due_questions(now);
                let elapsed = self.wall_clock_reached(now);
                InputStep::Tick { due, elapsed }
            },
        }
    }

    /// Takes in an event and says what follows.
    pub fn on_event(&mut self, envelope: SagaEnvelope) -> (r: EventStep)
        ensures
            event_taken(old(self)@, envelope, final(self)@, r),
    {
        let id: u128 = envelope.aggregate_id;
        let note = EventNote::of(&envelope.event);
        let ghost was = self@;
        if !self.view.apply(envelope) {
            assert(self@ == was);
            return EventStep::Ignored;
        }
        let ghost seen = ActorModel { view: was.view.after(envelope)->0, ..was };
        assert(self@ == seen);
        match note {
            EventNote::Run(change) => EventStep::Run(self.on_run_event(change)),
            EventNote::Task(change) => {
                self.on_task_event(change, id);
                EventStep::Task
            },
            EventNote::Question => EventStep::Question(self.on_question_event(id)),
            EventNote::Untracked => EventStep::Ignored,
        }
    }

    fn on_run_event(&mut self, change: RunNote) -> (r: RunStep)
        ensures
            run_noted(old(self)@, change, final(self)@, r),
    {
        match change {
            RunNote::PlanRejected => {
                self.planning_in_flight = false;
                RunStep::Nothing
            },
            RunNote::BudgetExhausted => {
                let failure = Failure {
                    reason: RunFailureReason::BudgetExhausted,
                    class: FailureClass::Budget,
                    message: None,
                };
                match self.request_failure(failure) {
                    Some(stop) => RunStep::Stop(stop),
                    None => RunStep::Nothing,
                }
            },
            RunNote::Cancelled => RunStep::CancelAttempts,
            RunNote::Over => RunStep::CancelAndRemember,
            RunNote::Other => RunStep::Nothing,
        }
    }

    fn on_task_event(&mut self, change: TaskChange, id: TaskId)
        ensures
            final(self)@ == old(self)@.task_changed(change, id),
    {
        match change {
            TaskChange::Retried => {
                self.retrying.remove(&id);
                self.routed.remove(&id);
                self.needs_route.insert(id);
            },
            TaskChange::AttemptFailed => {
                let ghost was = self@;
                let model = match self.routes.get(&id) {
                    Some(route) => Some(route.model.clone()),
                    None => None,
                };
                if let Some(model) = model {
                    let mut list = match self.excluded.remove(&id) {
                        Some(list) => list,
                        None => Vec::new(),
                    };
                    assert(list@ == was.excluded_of(id));
                    list.push(model);
                    self.excluded.insert(id, list);
                    assert(lists(self.excluded@) =~= was.excluded.insert(id, list@));
                }
            },
            _ => {},
        }
    }

    fn on_question_event(&mut self, id: QuestionId) -> (r: QuestionStep)
        ensures
            question_changed(old(self)@, id, final(self)@, r),
    {
        let (status, task_id, answered, at_once) = match self.view.questions.get(&id) {
            Some(q) => (
                q.status,
                q.task_id,
                q.answer.is_some(),
                match q.policy {
                    Some(QuestionPolicy::DefaultAfter { timeout }) => timeout.is_zero(),
                    _ => false,
                },
            ),
            None => {
                return QuestionStep::Nothing;
            },
        };
        match status {
            QuestionStatus::Open => if at_once {
                QuestionStep::Expire
            } else {
                QuestionStep::Nothing
            },
            QuestionStatus::Answered => match task_id {
                Some(task) if answered => {
                    if self.answered_forwarded.insert(id) && self.handles.contains_key(&task) {
                        QuestionStep::Forward(task)
                    } else {
                        QuestionStep::Nothing
                    }
                },
                _ => if self.noted_questions.insert(id) {
                    QuestionStep::Note
                } else {
                    QuestionStep::Nothing
                },
            },
            QuestionStatus::Expired => match task_id {
                Some(task) => if self.handles.contains_key(&task) {
                    QuestionStep::StopTask(task)
                } else {
                    QuestionStep::Nothing
                },
                None => {
                    let id_text = uuid_text(id);
                    let message = cat3("question ", id_text.as_str(), " expired without a default");
                    let failure = Failure {
                        reason: RunFailureReason::UnansweredQuestion,
                        class: FailureClass::Permanent,
                        message: Some(message),
                    };
                    match self.request_failure(failure) {
                        Some(stop) => QuestionStep::Stop(stop),
                        None => QuestionStep::Nothing,
                    }
                },
            },
        }
    }

    /// How an attempt ends whose question nobody answered.
    pub fn unanswered() -> (r: StopAll)
        ensures
            r.class == FailureClass::Transient,
            r.message@ == UNANSWERED_INPUT@,
    {
        StopAll { class: FailureClass::Transient, message: UNANSWERED_INPUT.to_owned() }
    }

    /// No new attempts from now on.
    pub fn on_drain(&mut self)
        ensures
            final(self)@ == (ActorModel { draining: true, ..old(self)@ }),
    {
        self.draining = true;
    }

    /// No more messages will come.
    pub fn on_mailbox_closed(&mut self)
        ensures
            final(self)@ == (ActorModel { mailbox_closed: true, ..old(self)@ }),
    {
        self.mailbox_closed = true;
    }

    /// The actor is to shut down: says how to end the running attempts, once.
    pub fn begin_shutdown(&mut self) -> (r: Option<StopAll>)
        ensures
            old(self)@.shutting_down ==> r is None && final(self)@ == old(self)@,
            !old(self)@.shutting_down ==> final(self)@ == (ActorModel {
                shutting_down: true,
                draining: true,
                ..old(self)@
            }) && (r matches Some(stop) && stop.class == FailureClass::Transient && stop.message@
                == RUNTIME_SHUTDOWN@),
    {
        if self.shutting_down {
            return None;
        }
        self.shutting_down = true;
        self.draining = true;
        Some(StopAll { class: FailureClass::Transient, message: RUNTIME_SHUTDOWN.to_owned() })
    }

    /// The open questions whose time is over, by id. A timeout that is too long
    /// for a clock is never over.
    pub fn due_questions(&self, now: Instant) -> (r: Vec<QuestionId>)
        ensures
            ascending(r@),
            forall|id: QuestionId| r@.contains(id) <==> #[trigger] self@.is_due(id, now),
    {
        let ids = keys_of(&self.view.questions);
        let mut out: Vec<QuestionId> = Vec::new();
        let mut i: usize = 0;
        while i < ids.len()
            invariant
                i <= ids@.len(),
                ascending(ids@),
                forall|k: u128| ids@.contains(k) <==> self.view.questions@.contains_key(k),
                ascending(out@),
                forall|j: int| 0 <= j < out@.len() ==> self@.is_due(#[trigger] out@[j], now),
                forall|j: int, k: int|
                    0 <= j < out@.len() && i <= k < ids@.len() ==> (#[trigger] out@[j]) < (
                    #[trigger] ids@[k]),
                forall|k: int|
                    0 <= k < i && self@.is_due(#[trigger] ids@[k], now) ==> out@.contains(ids@[k]),
            decreases ids@.len() - i,
        {
            let id: QuestionId = ids[i];
            assert(ids@.contains(id));
            let ghost before = out@;
            if self.question_due(id, now) {
                out.push(id);
                assert(out@[before.len() as int] == id);
                assert forall|k: int| 0 <= k < i && self@.is_due(
                    #[trigger] ids@[k],
                    now,
                ) implies out@.contains(ids@[k]) by {
                    let j = choose|j: int| 0 <= j < before.len() && before[j] == ids@[k];
                    assert(out@[j] == ids@[k]);
                }
            }
            i = i + 1;
        }
        assert forall|id: QuestionId| #[trigger] self@.is_due(id, now) implies out@.contains(
            id,
        ) by {
            assert(ids@.contains(id));
            let k = choose|k: int| 0 <= k < ids@.len() && ids@[k] == id;
            assert(self@.is_due(ids@[k], now));
        }
        out
    }

    fn question_due(&self, id: QuestionId, now: Instant) -> (b: bool)
        ensures
            b == self@.is_due(id, now),
    {
        match self.view.questions.get(&id) {
            Some(q) => match q.status {
                QuestionStatus::Open => match q.policy {
                    Some(QuestionPolicy::DefaultAfter { timeout }) => match self.view.asked_at.get(
                        &id,
                    ) {
                        Some(at) => deadline_passed(*at, timeout, now),
                        None => false,
                    },
                    _ => false,
                },
                _ => false,
            },
            None => false,
        }
    }

    /// How long the run has been going, in nanoseconds, where that is as long as
    /// its budget allows or longer; nothing for a run that is over or about to
    /// fail.
    pub fn wall_clock_reached(&self, now: Instant) -> (r: Option<u128>)
        ensures
            r == self@.time_reached(now),
    {
        if self.pending_failure.is_some() || self.view.run.status.is_terminal() {
            return None;
        }
        match (self.view.started_at, self.view.run.budget.max_wall) {
            (Some(started), Some(max_wall)) => {
                let elapsed: u128 = between(started, now);
                if elapsed < max_wall.as_nanos() {
                    None
                } else {
                    Some(elapsed)
                }
            },
            _ => None,
        }
    }

    /// The run took longer than its budget allows.
    pub fn on_wall_clock_exceeded(&mut self) -> (r: Option<StopAll>)
        ensures
            ({
                let failure = FailureView {
                    reason: ReasonView::BudgetExhausted,
                    class: FailureClass::Budget,
                    message: Some("run wall-clock exhausted"@),
                };
                match old(self)@.failing(failure) {
                    Some(next) => final(self)@ == next && (r matches Some(stop) && stop.class
                        == FailureClass::Budget && stop.message@ == "budget_exhausted"@),
                    None => r is None && final(self)@ == old(self)@,
                }
            }),
    {
        self.request_failure(
            Failure {
                reason: RunFailureReason::BudgetExhausted,
                class: FailureClass::Budget,
                message: Some("run wall-clock exhausted".to_owned()),
            },
        )
    }

    // -- advancing ----------------------------------------------------------
    /// What the run needs next. A pending failure waits for the running attempts
    /// and goes before everything else; a step that was taken is not taken again.
    pub fn advance(&mut self, plan_revision_limit: u32) -> (r: AdvanceStep)
        ensures
            advanced(old(self)@, plan_revision_limit, final(self)@, r),
    {
        if !self.view.run.exists {
            return AdvanceStep::Nothing;
        }
        if self.pending_failure.is_some() {
            if self.handles.is_empty() {
                if let Some(failure) = self.pending_failure.take() {
                    return AdvanceStep::FailRun(failure);
                }
            }
            return AdvanceStep::Nothing;
        }
        match self.view.run.status {
            RunStatus::Received => self.start_understanding(),
            RunStatus::Understanding => self.start_understanding(),
            RunStatus::Planning => {
                if self.planning_in_flight {
                    AdvanceStep::Nothing
                } else if (self.view.run.plan_revisions as u32) > plan_revision_limit {
                    self.pending_failure = Some(
                        Failure {
                            reason: RunFailureReason::PlanRevisionLimit,
                            class: FailureClass::Permanent,
                            message: None,
                        },
                    );
                    AdvanceStep::Nothing
                } else {
                    self.planning_in_flight = true;
                    AdvanceStep::Plan
                }
            },
            RunStatus::Executing => AdvanceStep::Execute,
            RunStatus::Integrating => AdvanceStep::Integrate,
            RunStatus::Evaluating => {
                if self.evaluation_in_flight {
                    AdvanceStep::Nothing
                } else {
                    self.evaluation_in_flight = true;
                    AdvanceStep::Evaluate
                }
            },
            _ => AdvanceStep::Nothing,
        }
    }

    fn start_understanding(&mut self) -> (r: AdvanceStep)
        ensures
            old(self)@.understanding_started ==> r == AdvanceStep::Nothing && final(self)@
                == old(self)@,
            !old(self)@.understanding_started ==> r == (AdvanceStep::Understand {
                needs_start: old(self)@.view.run.status == RunStatus::Received,
            }) && final(self)@ == (ActorModel { understanding_started: true, ..old(self)@ }),
    {
        if self.understanding_started {
            return AdvanceStep::Nothing;
        }
        self.understanding_started = true;
        AdvanceStep::Understand { needs_start: self.view.run.status == RunStatus::Received }
    }

    /// The feedback that goes with another planning call.
    pub fn plan_feedback(&self) -> (r: Option<String>)
        ensures
            text_view(r) == (if self@.view.run.plan_revisions > 0 {
                Some("The previous plan was rejected; address the feedback on it."@)
            } else {
                None
            }),
    {
        if self.view.run.plan_revisions > 0 {
            Some("The previous plan was rejected; address the feedback on it.".to_owned())
        } else {
            None
        }
    }

    /// The run's goal.
    pub fn goal(&self) -> (r: Goal)
        ensures
            match self@.view.run.goal {
                Some(goal) => r == goal,
                None => r.text@ == "(unknown goal)"@ && r.cwd@ == "."@ && r.repo_kind
                    == RepoKind::Plain,
            },
    {
        match &self.view.run.goal {
            Some(goal) => goal.clone(),
            None => Goal {
                text: "(unknown goal)".to_owned(),
                cwd: ".".to_owned(),
                repo_kind: RepoKind::Plain,
            },
        }
    }

    /// The run's mode, headless where it is unknown.
    pub fn mode(&self) -> (r: RunMode)
        ensures
            r == (match self@.view.run.mode {
                Some(mode) => mode,
                None => RunMode::Headless,
            }),
    {
        match &self.view.run.mode {
            Some(mode) => mode.clone(),
            None => RunMode::Headless,
        }
    }

    /// The lesson of the run, where its results were integrated.
    pub fn lesson(&self) -> (r: Option<Lesson>)
        ensures
            r is Some <==> self@.integration_summary.len() > 0,
            r matches Some(lesson) ==> {
                &&& lesson.run_id == self@.run_id
                &&& lesson.content@ == self@.integration_summary
                &&& lesson.tags@.len() == 1
                &&& lesson.tags@[0]@ == "run:"@ + uuid_text_of(self@.run_id)
            },
    {
        if self.integration_summary.as_str().unicode_len() == 0 {
            return None;
        }
        let id_text = uuid_text(self.run_id);
        let mut tags: Vec<String> = Vec::new();
        tags.push(cat("run:", id_text.as_str()));
        Some(Lesson { run_id: self.run_id, content: self.integration_summary.clone(), tags })
    }

    /// An attempt is over: its place is free.
    pub fn on_runner_finished(&mut self, task_id: TaskId)
        ensures
            final(self)@ == (ActorModel { handles: old(self)@.handles.remove(task_id), ..old(self)@
            }),
    {
        self.handles.remove(&task_id);
        assert(self.handles@ =~= old(self)@.handles.remove(task_id));
    }
}

/// What the actor keeps of an event of the run.
enum RunNote {
    PlanRejected,
    BudgetExhausted,
    Cancelled,
    /// Completed or failed.
    Over,
    Other,
}

/// What the actor keeps of an event while the view takes it in.
enum EventNote {
    Run(RunNote),
    Task(TaskChange),
    Question,
    Untracked,
}

impl EventNote {
    fn of(event: &SagaEvent) -> (r: EventNote)
        ensures
            match *event {
                SagaEvent::Run { change, .. } => r == EventNote::Run(note_of(change)),
                SagaEvent::Task { change, .. } => r == EventNote::Task(change),
                SagaEvent::Question { .. } => r == EventNote::Question,
                SagaEvent::Untracked => r == EventNote::Untracked,
            },
    {
        match event {
            SagaEvent::Run { change, .. } => EventNote::Run(
                match change {
                    RunChange::PlanRejected => RunNote::PlanRejected,
                    RunChange::BudgetExhausted => RunNote::BudgetExhausted,
                    RunChange::Cancelled => RunNote::Cancelled,
                    RunChange::Completed => RunNote::Over,
                    RunChange::Failed => RunNote::Over,
                    _ => RunNote::Other,
                },
            ),
            SagaEvent::Task { change, .. } => EventNote::Task(*change),
            SagaEvent::Question { .. } => EventNote::Question,
            SagaEvent::Untracked => EventNote::Untracked,
        }
    }
}

spec fn note_of(change: RunChange) -> RunNote {
    match change {
        RunChange::PlanRejected => RunNote::PlanRejected,
        RunChange::BudgetExhausted => RunNote::BudgetExhausted,
        RunChange::Cancelled => RunNote::Cancelled,
        RunChange::Completed => RunNote::Over,
        RunChange::Failed => RunNote::Over,
        _ => RunNote::Other,
    }
}

spec fn run_noted(was: ActorModel, change: RunNote, next: ActorModel, step: RunStep) -> bool {
    match change {
        RunNote::PlanRejected => step == RunStep::Nothing && next == (ActorModel {
            planning_in_flight: false,
            ..was
        }),
        RunNote::BudgetExhausted => budget_gone(was, next, step),
        RunNote::Cancelled => step == RunStep::CancelAttempts && next == was,
        RunNote::Over => step == RunStep::CancelAndRemember && next == was,
        RunNote::Other => step == RunStep::Nothing && next == was,
    }
}

/// The run fails because its budget is spent.
pub open spec fn budget_gone(was: ActorModel, next: ActorModel, step: RunStep) -> bool {
    let failure = FailureView {
        reason: ReasonView::BudgetExhausted,
        class: FailureClass::Budget,
        message: None,
    };
    match was.failing(failure) {
        Some(after) => next == after && (step matches RunStep::Stop(stop) && stop.class
            == FailureClass::Budget && stop.message@ == "budget_exhausted"@),
        None => next == was && step == RunStep::Nothing,
    }
}

/// What an event of the run leads to, once the view has taken it in.
pub open spec fn run_changed(
    was: ActorModel,
    change: RunChange,
    next: ActorModel,
    step: RunStep,
) -> bool {
    match change {
        RunChange::PlanRejected => step == RunStep::Nothing && next == (ActorModel {
            planning_in_flight: false,
            ..was
        }),
        RunChange::BudgetExhausted => budget_gone(was, next, step),
        RunChange::Cancelled => step == RunStep::CancelAttempts && next == was,
        RunChange::Completed => step == RunStep::CancelAndRemember && next == was,
        RunChange::Failed => step == RunStep::CancelAndRemember && next == was,
        _ => step == RunStep::Nothing && next == was,
    }
}

/// What an event leads to: the view takes it in, and the run, the task or the
/// question that it belongs to says what follows.
pub open spec fn event_taken(
    was: ActorModel,
    envelope: SagaEnvelope,
    next: ActorModel,
    step: EventStep,
) -> bool {
    match was.view.after(envelope) {
        None => step == EventStep::Ignored && next == was,
        Some(view) => {
            let seen = ActorModel { view, ..was };
            match envelope.event {
                SagaEvent::Run { change, .. } => step matches EventStep::Run(s) && run_changed(
                    seen,
                    change,
                    next,
                    s,
                ),
                SagaEvent::Task { change, .. } => step == EventStep::Task && next
                    == seen.task_changed(change, envelope.aggregate_id),
                SagaEvent::Question { .. } => step matches EventStep::Question(s)
                    && question_changed(seen, envelope.aggregate_id, next, s),
                SagaEvent::Untracked => false,
            }
        },
    }
}

/// The failure of a run whose clarification nobody answered.
pub open spec fn unanswered_failure(id: QuestionId) -> FailureView {
    FailureView {
        reason: ReasonView::UnansweredQuestion,
        class: FailureClass::Permanent,
        message: Some("question "@ + uuid_text_of(id) + " expired without a default"@),
    }
}

/// What an event of a question leads to, once the view has taken it in. An open
/// question whose default applies at once expires now. An answer goes to the
/// task's attempt, or is noted on the run, once. A question that expired without
/// an answer ends the task's attempt, or the run.
pub open spec fn question_changed(
    was: ActorModel,
    id: QuestionId,
    next: ActorModel,
    step: QuestionStep,
) -> bool {
    if !was.view.questions.contains_key(id) {
        step == QuestionStep::Nothing && next == was
    } else {
        let q = was.view.questions[id];
        match q.status {
            QuestionStatus::Open => next == was && step == (if q.policy matches Some(
                QuestionPolicy::DefaultAfter { timeout },
            ) && timeout.total() == 0 {
                QuestionStep::Expire
            } else {
                QuestionStep::Nothing
            }),
            QuestionStatus::Answered => match q.task_id {
                Some(task) if q.answer is Some => next == (ActorModel {
                    answered_forwarded: was.answered_forwarded.insert(id),
                    ..was
                }) && step == (if !was.answered_forwarded.contains(id) && was.handles.contains_key(
                    task,
                ) {
                    QuestionStep::Forward(task)
                } else {
                    QuestionStep::Nothing
                }),
                _ => next == (ActorModel {
                    noted_questions: was.noted_questions.insert(id),
                    ..was
                }) && step == (if was.noted_questions.contains(id) {
                    QuestionStep::Nothing
                } else {
                    QuestionStep::Note
                }),
            },
            QuestionStatus::Expired => match q.task_id {
                Some(task) => next == was && step == (if was.handles.contains_key(task) {
                    QuestionStep::StopTask(task)
                } else {
                    QuestionStep::Nothing
                }),
                None => match was.failing(unanswered_failure(id)) {
                    Some(after) => next == after && (step matches QuestionStep::Stop(stop)
                        && stop.class == FailureClass::Cancelled && stop.message@
                        == "unanswered_question"@),
                    None => next == was && step == QuestionStep::Nothing,
                },
            },
        }
    }
}

/// What the run needs next, and the state in which that is on its way.
pub open spec fn advanced(
    was: ActorModel,
    plan_revision_limit: u32,
    next: ActorModel,
    step: AdvanceStep,
) -> bool {
    if !was.view.run.exists {
        step == AdvanceStep::Nothing && next == was
    } else if let Some(failure) = was.pending {
        if was.handles.dom().is_empty() {
            next == (ActorModel { pending: None, ..was }) && (step matches AdvanceStep::FailRun(f)
                && f@ == failure)
        } else {
            step == AdvanceStep::Nothing && next == was
        }
    } else {
        match was.view.run.status {
            RunStatus::Received | RunStatus::Understanding => if was.understanding_started {
                step == AdvanceStep::Nothing && next == was
            } else {
                step == (AdvanceStep::Understand {
                    needs_start: was.view.run.status == RunStatus::Received,
                }) && next == (ActorModel { understanding_started: true, ..was })
            },
            RunStatus::Planning => if was.planning_in_flight {
                step == AdvanceStep::Nothing && next == was
            } else if was.view.run.plan_revisions > plan_revision_limit {
                step == AdvanceStep::Nothing && next == (ActorModel {
                    pending: Some(
                        FailureView {
                            reason: ReasonView::PlanRevisionLimit,
                            class: FailureClass::Permanent,
                            message: None,
                        },
                    ),
                    ..was
                })
            } else {
                step == AdvanceStep::Plan && next == (ActorModel {
                    planning_in_flight: true,
                    ..was
                })
            },
            RunStatus::Executing => step == AdvanceStep::Execute && next == was,
            RunStatus::Integrating => step == AdvanceStep::Integrate && next == was,
            RunStatus::Evaluating => if was.evaluation_in_flight {
                step == AdvanceStep::Nothing && next == was
            } else {
                step == AdvanceStep::Evaluate && next == (ActorModel {
                    evaluation_in_flight: true,
                    ..was
                })
            },
            _ => step == AdvanceStep::Nothing && next == was,
        }
    }
}

// ---------------------------------------------------------------------------
// Laws
// ---------------------------------------------------------------------------
/// An event that was taken in is ignored when it comes again.
pub proof fn law_a_repeated_event_is_ignored(
    first: ActorModel,
    envelope: SagaEnvelope,
    second: ActorModel,
    one: EventStep,
    third: ActorModel,
    two: EventStep,
)
    requires
        event_taken(first, envelope, second, one),
        event_taken(second, envelope, third, two),
        first.view.after(envelope) is Some,
    ensures
        two == EventStep::Ignored,
        third == second,
{
    super::view::law_duplicates_change_nothing(first.view, envelope);
}

/// The first failure counts: another one changes nothing.
pub proof fn law_the_first_failure_counts(actor: ActorModel, first: FailureView, other: FailureView)
    requires
        actor.failing(first) is Some,
    ensures
        actor.failing(first)->0.pending == Some(first),
        actor.failing(first)->0.failing(other) is None,
{
}

/// A run that is over cannot fail any more.
pub proof fn law_a_run_that_is_over_stays_so(actor: ActorModel, failure: FailureView)
    requires
        actor.view.run.status.terminal(),
    ensures
        actor.failing(failure) is None,
{
}

/// Advancing twice without news in between starts nothing twice: not the
/// planner's calls, not the judge, and the failure is recorded once.
pub proof fn law_advancing_is_idempotent(
    first: ActorModel,
    limit: u32,
    second: ActorModel,
    one: AdvanceStep,
    third: ActorModel,
    two: AdvanceStep,
)
    requires
        advanced(first, limit, second, one),
        advanced(second, limit, third, two),
        one is Understand || one is Plan || one is Evaluate,
    ensures
        two == AdvanceStep::Nothing,
        third == second,
{
}

/// A pending failure waits for the running attempts, and nothing else is started
/// before it is recorded.
pub proof fn law_a_pending_failure_goes_first(
    was: ActorModel,
    limit: u32,
    next: ActorModel,
    step: AdvanceStep,
)
    requires
        advanced(was, limit, next, step),
        was.pending is Some,
    ensures
        step == AdvanceStep::Nothing || step is FailRun,
        step is FailRun ==> was.handles.dom().is_empty() && next.pending is None,
{
}

/// A run that is over needs nothing.
pub proof fn law_a_run_that_is_over_needs_nothing(
    was: ActorModel,
    limit: u32,
    next: ActorModel,
    step: AdvanceStep,
)
    requires
        advanced(was, limit, next, step),
        was.view.run.status.terminal(),
        was.pending is None,
    ensures
        step == AdvanceStep::Nothing,
        next == was,
{
}

/// An answer is forwarded to its task, or noted on the run, only once.
pub proof fn law_an_answer_is_passed_on_once(
    first: ActorModel,
    id: QuestionId,
    second: ActorModel,
    one: QuestionStep,
    third: ActorModel,
    two: QuestionStep,
)
    requires
        question_changed(first, id, second, one),
        question_changed(second, id, third, two),
        one is Forward || one == QuestionStep::Note,
    ensures
        two == QuestionStep::Nothing,
        third == second,
{
    assert(second.answered_forwarded.insert(id) =~= second.answered_forwarded || one
        == QuestionStep::Note);
    assert(second.noted_questions.insert(id) =~= second.noted_questions || one is Forward);
}

/// Every phase of a run gets its own work: a run that was received or is being
/// understood goes to the planner's first call, one that is planned to the second,
/// one that executes to its tasks, one that integrates to the integration, and one
/// that is evaluated to the judge. Calls that are on their way are waited for, and
/// so are answers, the approval of a plan and nothing at all where the run is over.
pub proof fn law_every_phase_gets_its_own_work(
    was: ActorModel,
    limit: u32,
    next: ActorModel,
    step: AdvanceStep,
)
    requires
        advanced(was, limit, next, step),
        was.view.run.exists,
        was.pending is None,
    ensures
        match was.view.run.status {
            RunStatus::Received => if was.understanding_started {
                step is Nothing
            } else {
                step matches AdvanceStep::Understand { needs_start } && needs_start
                    && next.understanding_started
            },
            RunStatus::Understanding => if was.understanding_started {
                step is Nothing
            } else {
                step matches AdvanceStep::Understand { needs_start } && !needs_start
                    && next.understanding_started
            },
            RunStatus::Planning => if was.planning_in_flight {
                step is Nothing
            } else if was.view.run.plan_revisions <= limit {
                step is Plan && next.planning_in_flight && next.pending is None
            } else {
                step is Nothing && !next.planning_in_flight && next.pending is Some
            },
            RunStatus::Executing => step is Execute,
            RunStatus::Integrating => step is Integrate,
            RunStatus::Evaluating => if was.evaluation_in_flight {
                step is Nothing
            } else {
                step is Evaluate && next.evaluation_in_flight
            },
            RunStatus::AwaitingAnswers => step is Nothing,
            RunStatus::AwaitingPlanApproval => step is Nothing,
            RunStatus::Completed => step is Nothing,
            RunStatus::Failed => step is Nothing,
            RunStatus::Cancelled => step is Nothing,
        },
{
}

/// A run whose plan was rejected more often than the limit allows fails for that,
/// for good: once nothing runs, the next advance records it.
pub proof fn law_too_many_plan_revisions_fail_the_run(
    first: ActorModel,
    limit: u32,
    second: ActorModel,
    one: AdvanceStep,
    third: ActorModel,
    two: AdvanceStep,
)
    requires
        advanced(first, limit, second, one),
        advanced(second, limit, third, two),
        first.view.run.exists,
        first.pending is None,
        first.view.run.status == RunStatus::Planning,
        !first.planning_in_flight,
        first.view.run.plan_revisions > limit,
        first.handles == Map::<TaskId, AttemptId>::empty(),
    ensures
        one is Nothing,
        two matches AdvanceStep::FailRun(f) && f.reason@ is PlanRevisionLimit && f.class
            == FailureClass::Permanent && f.message is None,
        third.pending is None,
{
    assert(first.handles.dom() =~= Set::<TaskId>::empty());
}

/// A pending failure is recorded as it was requested as soon as no attempt runs,
/// and not before; an unknown run needs nothing.
pub proof fn law_a_pending_failure_is_recorded_as_requested(
    was: ActorModel,
    limit: u32,
    next: ActorModel,
    step: AdvanceStep,
)
    requires
        advanced(was, limit, next, step),
    ensures
        was.view.run.exists && was.pending is Some && (forall|id: TaskId|
            !was.handles.contains_key(id)) ==> next.pending is None && (
        step matches AdvanceStep::FailRun(f) && f.reason@ == was.pending->0.reason && f.class
            == was.pending->0.class && text_view(f.message) == was.pending->0.message),
        was.view.run.exists && was.pending is Some && (exists|id: TaskId|
            was.handles.contains_key(id)) ==> step is Nothing && next == was,
        !was.view.run.exists ==> step is Nothing && next == was,
        step is FailRun ==> was.pending is Some,
{
    if was.pending is Some {
        if forall|id: TaskId| !was.handles.contains_key(id) {
            assert(was.handles.dom() =~= Set::<TaskId>::empty());
        }
        if exists|id: TaskId| was.handles.contains_key(id) {
            let id = choose|id: TaskId| was.handles.contains_key(id);
            assert(was.handles.dom().contains(id));
        }
    }
}

/// Advancing sets only its own marks: what is known of the run, its attempts, its
/// routes and what was passed on stays as it was.
pub proof fn law_advancing_keeps_what_is_known(
    was: ActorModel,
    limit: u32,
    next: ActorModel,
    step: AdvanceStep,
)
    requires
        advanced(was, limit, next, step),
    ensures
        next == (ActorModel {
            pending: next.pending,
            understanding_started: next.understanding_started,
            planning_in_flight: next.planning_in_flight,
            evaluation_in_flight: next.evaluation_in_flight,
            ..was
        }),
        was.understanding_started ==> next.understanding_started,
        was.planning_in_flight ==> next.planning_in_flight,
        was.evaluation_in_flight ==> next.evaluation_in_flight,
{
}

/// A run can be failed exactly while it goes on and no failure is pending; then
/// the failure is pending and nothing else changed. The running attempts end as
/// cancelled, or with the budget where that is spent, under the reason's name.
pub proof fn law_a_run_that_goes_on_can_be_failed(
    was: ActorModel,
    failure: FailureView,
    next: ActorModel,
    stop: Option<StopAll>,
)
    requires
        failure_requested(was, failure, next, stop),
    ensures
        stop is Some <==> was.pending is None && was.view.run.status != RunStatus::Completed
            && was.view.run.status != RunStatus::Failed && was.view.run.status
            != RunStatus::Cancelled,
        stop is None ==> next == was,
        stop matches Some(s) ==> {
            &&& next == (ActorModel { pending: Some(failure), ..was })
            &&& failure.class == FailureClass::Budget ==> s.class == FailureClass::Budget
            &&& failure.class != FailureClass::Budget ==> s.class == FailureClass::Cancelled
            &&& failure.reason is TaskFailed ==> s.message@ == "task_failed"@
            &&& failure.reason is BudgetExhausted ==> s.message@ == "budget_exhausted"@
            &&& failure.reason is RuntimeRestarted ==> s.message@ == "runtime_restarted"@
            &&& failure.reason is IntegrationFailed ==> s.message@ == "integration_failed"@
            &&& failure.reason is UnansweredQuestion ==> s.message@ == "unanswered_question"@
            &&& failure.reason is InvalidPlan ==> s.message@ == "invalid_plan"@
            &&& failure.reason is PlanRevisionLimit ==> s.message@ == "plan_revision_limit"@
        },
{
}

/// An actor with a child left is not done. Without one it is done when it shuts
/// down, or when its run is over and the failure that was to be recorded is; a
/// failure that nobody will hear of any more does not keep it.
pub proof fn law_an_actor_ends_with_its_run(actor: ActorModel, runners: bool, jobs: bool)
    ensures
        runners || jobs ==> !actor.finished(runners, jobs),
        actor.shutting_down ==> actor.finished(false, false),
        !actor.shutting_down && actor.view.run.status != RunStatus::Completed
            && actor.view.run.status != RunStatus::Failed && actor.view.run.status
            != RunStatus::Cancelled ==> !actor.finished(runners, jobs),
        actor.view.run.exists && actor.pending is None && (actor.view.run.status
            == RunStatus::Completed || actor.view.run.status == RunStatus::Failed
            || actor.view.run.status == RunStatus::Cancelled) ==> actor.finished(false, false),
        !actor.shutting_down && actor.pending is Some && !actor.mailbox_closed
            ==> !actor.finished(runners, jobs),
        !actor.shutting_down && !actor.view.run.exists ==> !actor.finished(runners, jobs),
{
}

/// A retried task is routed anew: it waits for no retry any more, has no route
/// that counts and needs one. Its failed models stay known, and no other task is
/// touched.
pub proof fn law_a_retried_task_needs_a_route(actor: ActorModel, id: TaskId, other: TaskId)
    ensures
        ({
            let next = actor.task_changed(TaskChange::Retried, id);
            &&& !next.retrying.contains(id) && !next.routed.contains(id)
                && next.needs_route.contains(id)
            &&& next.excluded == actor.excluded && next.handles == actor.handles && next.view
                == actor.view && next.pending == actor.pending
            &&& other != id ==> next.retrying.contains(other) == actor.retrying.contains(other)
                && next.routed.contains(other) == actor.routed.contains(other)
                && next.needs_route.contains(other) == actor.needs_route.contains(other)
        }),
{
}

/// A model on which an attempt failed is not forgotten: it is added to those that
/// failed on its task, behind the earlier ones, and to no other task's.
pub proof fn law_a_failed_model_is_remembered(actor: ActorModel, id: TaskId, other: TaskId)
    ensures
        ({
            let next = actor.task_changed(TaskChange::AttemptFailed, id);
            &&& actor.routes.contains_key(id) ==> {
                let list = next.excluded_of(id);
                &&& list.len() == actor.excluded_of(id).len() + 1
                &&& list.last() == actor.routes[id].model
                &&& list.drop_last() == actor.excluded_of(id)
            }
            &&& !actor.routes.contains_key(id) ==> next == actor
            &&& other != id ==> next.excluded_of(other) == actor.excluded_of(other)
            &&& next == (ActorModel { excluded: next.excluded, ..actor })
        }),
{
    let next = actor.task_changed(TaskChange::AttemptFailed, id);
    if actor.routes.contains_key(id) {
        assert(next.excluded_of(id).drop_last() =~= actor.excluded_of(id));
    }
}

/// Events of a task that neither retry it nor end an attempt in failure leave
/// everything beside the view as it was.
pub proof fn law_other_task_events_only_change_the_view(
    actor: ActorModel,
    change: TaskChange,
    id: TaskId,
)
    requires
        change != TaskChange::Retried,
        change != TaskChange::AttemptFailed,
    ensures
        actor.task_changed(change, id) == actor,
{
}

/// An open question falls due exactly when its timeout has gone by since it was
/// asked, and stays due; one that waits for an answer never does, nor one that was
/// answered or has expired.
pub proof fn law_questions_fall_due_when_their_time_is_over(
    actor: ActorModel,
    id: QuestionId,
    now: Instant,
    later: Instant,
)
    requires
        actor.view.questions.contains_key(id),
        now <= later,
    ensures
        actor.view.questions[id].policy matches Some(QuestionPolicy::DefaultAfter { timeout })
            ==> actor.view.questions[id].status == QuestionStatus::Open
            && actor.view.asked_at.contains_key(id) && timeout.secs * 1_000_000_000 + timeout.nanos
            <= 9_223_372_036_854_775_807_000_000 ==> (actor.is_due(id, now) <==> now - actor.view.asked_at[id] >= timeout.secs * 1_000_000_000
            + timeout.nanos),
        (actor.view.questions[id].policy matches Some(QuestionPolicy::DefaultAfter { timeout })
            && timeout.secs * 1_000_000_000 + timeout.nanos
            > 9_223_372_036_854_775_807_000_000) ==> !actor.is_due(id, now),
        actor.is_due(id, now) ==> actor.is_due(id, later),
        actor.view.questions[id].policy == Some(QuestionPolicy::Block) ==> !actor.is_due(id, now),
        actor.view.questions[id].policy is None ==> !actor.is_due(id, now),
        actor.view.questions[id].status == QuestionStatus::Answered ==> !actor.is_due(id, now),
        actor.view.questions[id].status == QuestionStatus::Expired ==> !actor.is_due(id, now),
{
}

/// A run has reached its time exactly when as much went by since its start as its
/// budget allows, and is told how much that was; a run without a start or without
/// such a limit never does, nor one that is over or about to fail.
pub proof fn law_a_run_reaches_its_time(actor: ActorModel, now: Instant)
    ensures
        actor.view.started_at is None ==> actor.time_reached(now) is None,
        actor.view.run.budget.max_wall is None ==> actor.time_reached(now) is None,
        actor.pending is Some ==> actor.time_reached(now) is None,
        actor.view.run.status == RunStatus::Completed || actor.view.run.status == RunStatus::Failed
            || actor.view.run.status == RunStatus::Cancelled ==> actor.time_reached(now) is None,
        (actor.view.started_at is Some && actor.view.run.budget.max_wall is Some
            && actor.pending is None && actor.view.run.status != RunStatus::Completed
            && actor.view.run.status != RunStatus::Failed && actor.view.run.status
            != RunStatus::Cancelled) ==> {
            let started = actor.view.started_at->0;
            let limit = actor.view.run.budget.max_wall->0;
            let most = limit.secs * 1_000_000_000 + limit.nanos;
            &&& now > started ==> (actor.time_reached(now) is Some <==> now - started >= most)
            &&& now > started && now - started >= most ==> actor.time_reached(now)->0 == now
                - started
            &&& now <= started && most > 0 ==> actor.time_reached(now) is None
        },
{
}

/// What the run's own events lead to: a rejected plan lets the planner be called
/// again, a spent budget fails the run, a cancelled run has its attempts cancelled,
/// and one that completed or failed may leave a lesson too. Every other event only
/// changes the view.
pub proof fn law_the_runs_events_are_followed(
    was: ActorModel,
    envelope: SagaEnvelope,
    next: ActorModel,
    step: EventStep,
)
    requires
        event_taken(was, envelope, next, step),
        was.view.after(envelope) is Some,
        envelope.event is Run,
    ensures
        next.view == was.view.after(envelope)->0,
        next.handles == was.handles,
        match envelope.event->Run_change {
            RunChange::PlanRejected => step == EventStep::Run(RunStep::Nothing)
                && !next.planning_in_flight && next.pending == was.pending,
            RunChange::BudgetExhausted => was.pending is None && next.view.run.status
                != RunStatus::Completed && next.view.run.status != RunStatus::Failed
                && next.view.run.status != RunStatus::Cancelled ==> (
            step matches EventStep::Run(RunStep::Stop(stop)) && stop.class == FailureClass::Budget)
                && (next.pending matches Some(f) && f.reason is BudgetExhausted && f.class
                == FailureClass::Budget && f.message is None),
            RunChange::Cancelled => step == EventStep::Run(RunStep::CancelAttempts) && next.pending
                == was.pending,
            RunChange::Completed => step == EventStep::Run(RunStep::CancelAndRemember)
                && next.pending == was.pending,
            RunChange::Failed => step == EventStep::Run(RunStep::CancelAndRemember) && next.pending
                == was.pending,
            _ => step == EventStep::Run(RunStep::Nothing) && next == (ActorModel {
                view: next.view,
                ..was
            }),
        },
{
}

/// A rejected plan is followed by another call of the planner, as long as the
/// limit allows it.
pub proof fn law_a_rejected_plan_is_planned_again(
    first: ActorModel,
    envelope: SagaEnvelope,
    second: ActorModel,
    one: EventStep,
    limit: u32,
    third: ActorModel,
    two: AdvanceStep,
)
    requires
        event_taken(first, envelope, second, one),
        first.view.after(envelope) is Some,
        envelope.event matches SagaEvent::Run { change, .. } && change == RunChange::PlanRejected,
        advanced(second, limit, third, two),
        second.view.run.exists,
        second.view.run.status == RunStatus::Planning,
        second.view.run.plan_revisions <= limit,
        second.pending is None,
    ensures
        two is Plan,
{
}

/// An answer to a running task's question is handed to that task's attempt, an
/// answer to the run's own question is noted on the run; a question that expired
/// unanswered ends the attempt that asked it, or fails the run.
pub proof fn law_answers_reach_who_asked(
    was: ActorModel,
    id: QuestionId,
    next: ActorModel,
    step: QuestionStep,
)
    requires
        question_changed(was, id, next, step),
        was.view.questions.contains_key(id),
    ensures
        ({
            let q = was.view.questions[id];
            &&& q.status == QuestionStatus::Answered && q.answer is Some ==> (
            q.task_id matches Some(task) ==> was.handles.contains_key(task)
                && !was.answered_forwarded.contains(id) ==> step == QuestionStep::Forward(task)
                && next.answered_forwarded.contains(id))
            &&& q.status == QuestionStatus::Answered && q.task_id is None
                && !was.noted_questions.contains(id) ==> step is Note
                && next.noted_questions.contains(id)
            &&& q.status == QuestionStatus::Expired ==> (q.task_id matches Some(task)
                ==> was.handles.contains_key(task) ==> step == QuestionStep::StopTask(task))
            &&& q.status == QuestionStatus::Expired && q.task_id is None && was.pending is None
                && was.view.run.status != RunStatus::Completed && was.view.run.status
                != RunStatus::Failed && was.view.run.status != RunStatus::Cancelled ==> step is Stop
                && (next.pending matches Some(f) && f.reason is UnansweredQuestion && f.class
                == FailureClass::Permanent && (f.message matches Some(m) && m == "question "@
                + uuid_text_of(id) + " expired without a default"@))
            &&& q.status == QuestionStatus::Open ==> next == was && (step is Expire
                || step is Nothing)
            &&& q.status == QuestionStatus::Open && q.policy == Some(
                QuestionPolicy::DefaultAfter { timeout: Span { secs: 0, nanos: 0 } },
            ) ==> step is Expire
            &&& q.status == QuestionStatus::Open && !(q.policy is Some
                && q.policy->0 is DefaultAfter) ==> step is Nothing
            &&& step is Forward ==> q.status == QuestionStatus::Answered && q.task_id == Some(
                step->Forward_0,
            )
            &&& step is StopTask ==> q.status == QuestionStatus::Expired && q.task_id == Some(
                step->StopTask_0,
            )
            &&& step is Expire ==> q.status == QuestionStatus::Open
        }),
        next.view == was.view,
        next.handles == was.handles,
        was.pending is Some ==> next.pending == was.pending,
{
}

/// An event that the view takes in leads to the step of its kind; one that the
/// view knows, or does not track, changes nothing.
pub proof fn law_events_lead_to_steps_of_their_kind(
    was: ActorModel,
    envelope: SagaEnvelope,
    next: ActorModel,
    step: EventStep,
)
    requires
        event_taken(was, envelope, next, step),
    ensures
        was.view.after(envelope) is None ==> step == EventStep::Ignored && next == was,
        was.view.after(envelope) is Some ==> next.view == was.view.after(envelope)->0,
        was.view.after(envelope) is Some && envelope.event is Run ==> step is Run,
        was.view.after(envelope) is Some && envelope.event is Task ==> step == EventStep::Task
            && next.pending == was.pending,
        was.view.after(envelope) is Some && envelope.event is Question ==> step is Question,
{
}

} // verus!
