//! Reconciling the tasks of a run: what is retried, skipped and noted, and when
//! the run fails with them.
use vstd::prelude::*;

use super::actor::{
    stop_class, ActorModel, Failure, FailureView, ReasonView, RunActor, StopAll,
};
use crate::domain::{
    Budget, FailureClass, RunMode, RunStatus, Span, Task, TaskId, TaskOutcome, TaskStatus, Usage,
};
use crate::events::RunFailureReason;
use crate::maps::{ascending, keys_of};
use crate::money::Amount;
use crate::ports::RecordRouteOutcome;
use crate::scheduler::{blocked_of, blocked_tasks, Blocked};
use crate::text::cat3;

verus! {

broadcast use vstd::std_specs::btree::group_btree_axioms;

/// The configured limits of a task.
#[derive(Debug, Clone, Copy, PartialEq, Eq, Structural)]
pub struct TaskLimits {
    pub default_task_usd: Amount,
    pub max_tokens_per_task: u64,
    pub default_task_wall: Span,
}

/// A task to try again.
#[derive(Debug, Clone, Copy, PartialEq, Eq, Structural)]
pub struct Retry {
    pub task_id: TaskId,
    /// The class of its last failure.
    pub class: FailureClass,
}

/// A task that is over, to be noted on the run; the outcome of its last attempt
/// goes to the router, once.
#[derive(Debug, PartialEq, Eq)]
pub struct TerminalNote {
    pub task_id: TaskId,
    pub outcome: TaskOutcome,
    pub usage: Usage,
    pub route_outcome: Option<RecordRouteOutcome>,
}

// ---------------------------------------------------------------------------
// Rules
// ---------------------------------------------------------------------------
/// A failure of this class is tried again: a retryable one, but Kohral runs do
/// not go on after a restart.
pub open spec fn is_retry_allowed(class: FailureClass, kohral: bool) -> bool {
    class.retryable() && !(kohral && class == FailureClass::RuntimeRestarted)
}

/// Whether a failure of this class is tried again.
pub fn retry_allowed(class: FailureClass, kohral: bool) -> (b: bool)
    ensures
        b == is_retry_allowed(class, kohral),
{
    class.is_retryable() && !(kohral && class == FailureClass::RuntimeRestarted)
}

/// The outcome that a status stands for, where the task is over.
pub open spec fn outcome_of(status: TaskStatus) -> Option<TaskOutcome> {
    match status {
        TaskStatus::Succeeded => Some(TaskOutcome::Succeeded),
        TaskStatus::Failed => Some(TaskOutcome::Failed),
        TaskStatus::Cancelled => Some(TaskOutcome::Cancelled),
        TaskStatus::Skipped => Some(TaskOutcome::Skipped),
        _ => None,
    }
}

/// The outcome that a status stands for, where the task is over.
pub fn task_outcome(status: TaskStatus) -> (r: Option<TaskOutcome>)
    ensures
        r == outcome_of(status),
{
    match status {
        TaskStatus::Succeeded => Some(TaskOutcome::Succeeded),
        TaskStatus::Failed => Some(TaskOutcome::Failed),
        TaskStatus::Cancelled => Some(TaskOutcome::Cancelled),
        TaskStatus::Skipped => Some(TaskOutcome::Skipped),
        _ => None,
    }
}

/// The label of an outcome.
pub fn outcome_label(outcome: TaskOutcome) -> (r: &'static str)
    ensures
        r@ == (match outcome {
            TaskOutcome::Succeeded => "succeeded"@,
            TaskOutcome::Failed => "failed"@,
            TaskOutcome::Cancelled => "cancelled"@,
            TaskOutcome::Skipped => "skipped"@,
        }),
{
    match outcome {
        TaskOutcome::Succeeded => "succeeded",
        TaskOutcome::Failed => "failed",
        TaskOutcome::Cancelled => "cancelled",
        TaskOutcome::Skipped => "skipped",
    }
}

/// Why a task is tried again.
pub fn retry_reason(class: FailureClass) -> (r: String)
    ensures
        r@ == "retry after "@ + class.name() + " failure"@,
{
    cat3("retry after ", class.as_str(), " failure")
}

/// The class of the last failure, where the last attempt failed.
pub open spec fn last_failure_of(task: Task) -> Option<FailureClass> {
    match task.last_attempt {
        Some(attempt) => match attempt.failure {
            Some(failure) => Some(failure.class),
            None => None,
        },
        None => None,
    }
}

fn last_failure(task: &Task) -> (r: Option<FailureClass>)
    ensures
        r == last_failure_of(*task),
{
    match &task.last_attempt {
        Some(attempt) => match &attempt.failure {
            Some(failure) => Some(failure.class),
            None => None,
        },
        None => None,
    }
}

/// The run's failure for a task's failure of this class; none where the task was
/// only cancelled.
pub open spec fn failure_for(class: FailureClass) -> Option<FailureView> {
    match class {
        FailureClass::Cancelled => None,
        FailureClass::Budget => Some(
            FailureView { reason: ReasonView::BudgetExhausted, class, message: None },
        ),
        FailureClass::RuntimeRestarted => Some(
            FailureView { reason: ReasonView::RuntimeRestarted, class, message: None },
        ),
        _ => Some(FailureView { reason: ReasonView::TaskFailed, class, message: None }),
    }
}

impl ActorModel {
    pub open spec fn kohral(self) -> bool {
        self.view.run.mode matches Some(mode) && mode.kohral()
    }

    /// The task is to be tried again.
    pub open spec fn wants_retry(self, id: TaskId) -> bool {
        &&& self.view.tasks.contains_key(id)
        &&& self.view.tasks[id].status == TaskStatus::Failed
        &&& self.view.tasks[id].can_retry
        &&& self.view.tasks[id].kind is Some
        &&& !self.retrying.contains(id)
        &&& !self.handles.contains_key(id)
        &&& last_failure_of(self.view.tasks[id]) matches Some(class) && is_retry_allowed(
            class,
            self.kohral(),
        )
    }

    /// The task failed for good, and the run with it.
    pub open spec fn fails_run(self, id: TaskId) -> bool {
        &&& self.view.tasks.contains_key(id)
        &&& self.integration_task != Some(id)
        &&& self.view.tasks[id].status == TaskStatus::Failed
        &&& !(self.view.tasks[id].spec matches Some(spec) && spec.optional)
        &&& last_failure_of(self.view.tasks[id]) matches Some(class) && !(
        self.view.tasks[id].can_retry && is_retry_allowed(class, self.kohral()))
    }

    /// The first such task, by id.
    pub open spec fn fails_run_first(self, id: TaskId) -> bool {
        self.fails_run(id) && forall|other: TaskId| #[trigger]
            self.fails_run(other) ==> id <= other
    }

    /// The tasks that are over and not noted, in order.
    pub open spec fn to_note(self) -> Seq<TaskId> {
        self.view.task_order.filter(|id: TaskId| self.must_note(id))
    }

    pub open spec fn must_note(self, id: TaskId) -> bool {
        !self.noted.contains(id) && self.view.tasks.contains_key(id)
            && self.view.tasks[id].terminal && outcome_of(self.view.tasks[id].status) is Some
    }

    /// The note for a task that is over, where `recorded` went to the router
    /// before.
    pub open spec fn note_of(self, id: TaskId, recorded: Set<u128>) -> TerminalNote {
        let task = self.view.tasks[id];
        let outcome = outcome_of(task.status)->0;
        TerminalNote {
            task_id: id,
            outcome,
            usage: task.usage,
            route_outcome: match (task.kind, task.last_attempt) {
                (Some(kind), Some(attempt)) => if recorded.contains(attempt.id) {
                    None
                } else {
                    Some(
                        RecordRouteOutcome {
                            run_id: self.run_id,
                            task_id: id,
                            attempt_id: attempt.id,
                            task_kind: kind,
                            alias: attempt.route.model,
                            success: outcome == TaskOutcome::Succeeded,
                            quality: None,
                            cost_usd: attempt.usage.cost_usd,
                            wall_ms: attempt.usage.wall_ms,
                            failure_class: match attempt.failure {
                                Some(failure) => Some(failure.class),
                                None => None,
                            },
                        },
                    )
                },
                _ => None,
            },
        }
    }

    /// The attempts known to the router once the tasks `ids` were noted.
    pub open spec fn recorded_after(self, ids: Seq<TaskId>) -> Set<u128>
        decreases ids.len(),
    {
        if ids.len() == 0 {
            self.outcomes_recorded
        } else {
            let before = self.recorded_after(ids.drop_last());
            let task = self.view.tasks[ids.last()];
            match (task.kind, task.last_attempt) {
                (Some(_), Some(attempt)) => before.insert(attempt.id),
                _ => before,
            }
        }
    }

    /// The notes for the tasks `ids`, in order.
    pub open spec fn notes_of(self, ids: Seq<TaskId>) -> Seq<TerminalNote>
        decreases ids.len(),
    {
        if ids.len() == 0 {
            Seq::empty()
        } else {
            self.notes_of(ids.drop_last()).push(
                self.note_of(ids.last(), self.recorded_after(ids.drop_last())),
            )
        }
    }

    /// The conflict task failed for good.
    pub open spec fn conflict_task_failed(self) -> bool {
        self.integration_task matches Some(id) && self.view.tasks.contains_key(id)
            && self.view.tasks[id].status == TaskStatus::Failed && !self.view.tasks[id].can_retry
    }

    /// The conflict task is done.
    pub open spec fn conflict_task_done(self) -> bool {
        self.integration_task matches Some(id) && self.view.tasks.contains_key(id)
            && self.view.tasks[id].status == TaskStatus::Succeeded
    }
}

/// The blocked tasks that are not being skipped already, in order.
pub open spec fn to_skip(blocked: Seq<Blocked>, skipping: Set<TaskId>) -> Seq<TaskId>
    decreases blocked.len(),
{
    if blocked.len() == 0 {
        Seq::empty()
    } else {
        let before = to_skip(blocked.drop_last(), skipping);
        let id = blocked.last().task_id;
        if skipping.contains(id) || before.contains(id) {
            before
        } else {
            before.push(id)
        }
    }
}

/// The task ids of blocked tasks.
pub open spec fn blocked_ids(blocked: Seq<Blocked>) -> Set<TaskId> {
    blocked.map_values(|b: Blocked| b.task_id).to_set()
}

/// The conflict task's failure.
pub open spec fn conflict_failure() -> FailureView {
    FailureView {
        reason: ReasonView::IntegrationFailed,
        class: FailureClass::Permanent,
        message: Some("the conflict-resolution task failed"@),
    }
}

/// How many tasks are to be created for the approved plan, and that they are.
pub open spec fn tasks_to_create(was: ActorModel, next: ActorModel, n: Option<usize>) -> bool {
    match was.view.run.plan {
        Some(plan) if !was.tasks_created && was.view.run.task_ids@.len() == 0 => n == Some(
            plan.tasks@.len() as usize,
        ) && next == (ActorModel { tasks_created: true, ..was }),
        _ => n is None && next == was,
    }
}

impl ActorModel {
    /// The budget of a task: the configured limits, and the run's number of
    /// attempts.
    pub open spec fn budget_of_a_task(self, limits: TaskLimits) -> Budget {
        Budget {
            max_usd: Some(limits.default_task_usd),
            max_tokens: Some(limits.max_tokens_per_task),
            max_wall: Some(limits.default_task_wall),
            max_attempts: self.view.run.budget.max_attempts,
            max_parallel: 1,
        }
    }
}

/// The tasks to try again, by id, and that their retries are on their way.
pub open spec fn retries_asked_for(was: ActorModel, next: ActorModel, retries: Seq<Retry>) -> bool {
    let ids = retries.map_values(|t: Retry| t.task_id);
    if was.pending is Some || was.draining {
        retries.len() == 0 && next == was
    } else {
        &&& ascending(ids)
        &&& forall|id: TaskId| ids.contains(id) <==> #[trigger] was.wants_retry(id)
        &&& forall|i: int|
            0 <= i < retries.len() ==> Some((#[trigger] retries[i]).class) == last_failure_of(
                was.view.tasks[retries[i].task_id],
            )
        &&& next == (ActorModel { retrying: was.retrying.union(ids.to_set()), ..was })
    }
}

/// What a look at the task that resolves conflicts leads to.
pub open spec fn conflict_task_checked(
    was: ActorModel,
    next: ActorModel,
    stop: Option<StopAll>,
) -> bool {
    if was.conflict_task_done() {
        stop is None && next == (ActorModel {
            integration_task: None,
            integration_in_flight: false,
            ..was
        })
    } else if was.conflict_task_failed() {
        let freed = ActorModel { integration_task: None, ..was };
        match freed.failing(conflict_failure()) {
            Some(after) => next == after && (stop matches Some(s) && s.class
                == FailureClass::Cancelled && s.message@ == "integration_failed"@),
            None => stop is None && next == freed,
        }
    } else {
        stop is None && next == was
    }
}

/// What a look at the tasks that failed for good leads to: the first one by id
/// says how the run fails.
pub open spec fn required_failures_checked(
    was: ActorModel,
    next: ActorModel,
    stop: Option<StopAll>,
) -> bool {
    &&& was.pending is Some || (forall|id: TaskId| !(#[trigger] was.fails_run(id))) ==> stop is None
        && next == was
    &&& forall|id: TaskId| #[trigger]
        was.fails_run_first(id) && was.pending is None ==> {
            let class = last_failure_of(was.view.tasks[id])->0;
            match failure_for(class) {
                None => stop is None && next == was,
                Some(failure) => match was.failing(failure) {
                    Some(after) => next == after && (stop matches Some(s) && s.class == stop_class(
                        class,
                    ) && s.message@ == failure.reason.label()),
                    None => stop is None && next == was,
                },
            }
        }
}

fn is_kohral(mode: &Option<RunMode>) -> (b: bool)
    ensures
        b == (*mode matches Some(m) && m.kohral()),
{
    match mode {
        Some(m) => m.is_kohral(),
        None => false,
    }
}

impl RunActor {
    // -- creating -----------------------------------------------------------
    /// How many tasks to create for the approved plan; nothing where they were
    /// created before.
    pub fn create_tasks(&mut self) -> (r: Option<usize>)
        ensures
            tasks_to_create(old(self)@, final(self)@, r),
    {
        if self.tasks_created || self.view.run.task_ids.len() > 0 {
            return None;
        }
        let n: usize = match &self.view.run.plan {
            Some(plan) => plan.tasks.len(),
            None => {
                return None;
            },
        };
        self.tasks_created = true;
        Some(n)
    }

    /// The plan makes no tasks: the run is to fail.
    pub fn on_invalid_plan(&mut self, message: String) -> (r: Option<StopAll>)
        ensures
            ({
                let failure = FailureView {
                    reason: ReasonView::InvalidPlan,
                    class: FailureClass::Permanent,
                    message: Some(message@),
                };
                match old(self)@.failing(failure) {
                    Some(next) => final(self)@ == next && (r matches Some(stop) && stop.class
                        == FailureClass::Cancelled && stop.message@ == "invalid_plan"@),
                    None => r is None && final(self)@ == old(self)@,
                }
            }),
    {
        self.request_failure(
            Failure {
                reason: RunFailureReason::InvalidPlan,
                class: FailureClass::Permanent,
                message: Some(message),
            },
        )
    }

    /// The budget of a task: the configured limits, and the run's number of
    /// attempts.
    pub fn task_budget(&self, limits: &TaskLimits) -> (r: Budget)
        ensures
            r == self@.budget_of_a_task(*limits),
    {
        Budget {
            max_usd: Some(limits.default_task_usd),
            max_tokens: Some(limits.max_tokens_per_task),
            max_wall: Some(limits.default_task_wall),
            max_attempts: self.view.run.budget.max_attempts,
            max_parallel: 1,
        }
    }

    // -- retrying -----------------------------------------------------------
    fn task_wants_retry(&self, id: TaskId, kohral: bool) -> (r: Option<FailureClass>)
        requires
            kohral == self@.kohral(),
        ensures
            r == (if self@.wants_retry(id) {
                last_failure_of(self@.view.tasks[id])
            } else {
                None
            }),
    {
        match self.view.tasks.get(&id) {
            Some(task) => {
                let failed = match task.status {
                    TaskStatus::Failed => true,
                    _ => false,
                };
                if failed && task.can_retry && task.kind.is_some() && !self.retrying.contains(&id)
                    && !self.handles.contains_key(&id) {
                    match last_failure(task) {
                        Some(class) => if retry_allowed(class, kohral) {
                            Some(class)
                        } else {
                            None
                        },
                        None => None,
                    }
                } else {
                    None
                }
            },
            None => None,
        }
    }

    /// The failed tasks to try again, by id, each until its retry is on record.
    /// None while the run fails or drains.
    pub fn retry_failed_tasks(&mut self) -> (r: Vec<Retry>)
        ensures
            retries_asked_for(old(self)@, final(self)@, r@),
    {
        let mut out: Vec<Retry> = Vec::new();
        if self.pending_failure.is_some() || self.draining {
            return out;
        }
        let kohral = is_kohral(&self.view.run.mode);
        let ids = keys_of(&self.view.tasks);
        let mut i: usize = 0;
        let ghost was = self@;
        while i < ids.len()
            invariant
                i <= ids@.len(),
                was == self@,
                kohral == was.kohral(),
                ascending(ids@),
                forall|k: u128| ids@.contains(k) <==> was.view.tasks.contains_key(k),
                forall|j: int, k: int|
                    0 <= j < k < out@.len() ==> (#[trigger] out@[j]).task_id < (
                    #[trigger] out@[k]).task_id,
                forall|j: int|
                    0 <= j < out@.len() ==> was.wants_retry((#[trigger] out@[j]).task_id) && Some(
                        out@[j].class,
                    ) == last_failure_of(was.view.tasks[out@[j].task_id]),
                forall|j: int, k: int|
                    0 <= j < out@.len() && i <= k < ids@.len() ==> (#[trigger] out@[j]).task_id < (
                    #[trigger] ids@[k]),
                forall|k: int|
                    0 <= k < i && was.wants_retry(#[trigger] ids@[k]) ==> exists|j: int|
                        0 <= j < out@.len() && (#[trigger] out@[j]).task_id == ids@[k],
            decreases ids@.len() - i,
        {
            let id: TaskId = ids[i];
            assert(ids@.contains(id));
            let ghost before = out@;
            if let Some(class) = self.task_wants_retry(id, kohral) {
                out.push(Retry { task_id: id, class });
                assert(out@[before.len() as int].task_id == id);
                assert forall|k: int| 0 <= k < i && was.wants_retry(#[trigger] ids@[k]) implies (
                exists|j: int| 0 <= j < out@.len() && (#[trigger] out@[j]).task_id == ids@[k]) by {
                    let j = choose|j: int|
                        0 <= j < before.len() && (#[trigger] before[j]).task_id == ids@[k];
                    assert(out@[j].task_id == ids@[k]);
                }
            }
            i = i + 1;
        }
        let ghost found = out@.map_values(|t: Retry| t.task_id);
        proof {
            assert forall|id: TaskId| #[trigger] was.wants_retry(id) implies found.contains(id) by {
                assert(ids@.contains(id));
                let k = choose|k: int| 0 <= k < ids@.len() && ids@[k] == id;
                assert(was.wants_retry(ids@[k]));
                let j = choose|j: int|
                    0 <= j < out@.len() && (#[trigger] out@[j]).task_id == ids@[k];
                assert(found[j] == id);
            }
            assert forall|id: TaskId| found.contains(id) implies #[trigger] was.wants_retry(
                id,
            ) by {
                let j = choose|j: int| 0 <= j < found.len() && found[j] == id;
                assert(out@[j].task_id == id);
            }
        }
        let mut k: usize = 0;
        assert(found.subrange(0, 0).to_set() =~= Set::<TaskId>::empty());
        assert(was.retrying.union(found.subrange(0, 0).to_set()) =~= was.retrying);
        while k < out.len()
            invariant
                k <= out@.len(),
                found == out@.map_values(|t: Retry| t.task_id),
                self@ == (ActorModel {
                    retrying: was.retrying.union(found.subrange(0, k as int).to_set()),
                    ..was
                }),
            decreases out@.len() - k,
        {
            let id: TaskId = out[k].task_id;
            self.retrying.insert(id);
            proof {
                let a = found.subrange(0, k as int);
                let b = found.subrange(0, k + 1);
                assert(b =~= a.push(id));
                assert forall|x: TaskId| b.to_set().contains(x) <==> (a.to_set().contains(x) || x
                    == id) by {
                    if a.contains(x) {
                        let m = choose|m: int| 0 <= m < a.len() && a[m] == x;
                        assert(b[m] == x);
                    }
                    if x == id {
                        assert(b[k as int] == x);
                    }
                }
                assert(was.retrying.union(b.to_set()) =~= was.retrying.union(a.to_set()).insert(
                    id,
                ));
            }
            k = k + 1;
        }
        assert(found.subrange(0, found.len() as int) =~= found);
        out
    }

    /// The retry was refused: the task may be tried again later.
    pub fn on_retry_refused(&mut self, task_id: TaskId)
        ensures
            final(self)@ == (ActorModel { retrying: old(self)@.retrying.remove(task_id), ..old(
                self,
            )@ }),
    {
        self.retrying.remove(&task_id);
    }

    // -- skipping -----------------------------------------------------------
    /// The blocked tasks to skip, in order, each once.
    pub fn skip_blocked_tasks(&mut self) -> (r: Vec<TaskId>)
        ensures
            ({
                let blocked = blocked_of(
                    old(self)@.view.task_order,
                    old(self)@.view.tasks,
                    old(self)@.view.task_order.len(),
                );
                &&& r@ == to_skip(blocked, old(self)@.skipping)
                &&& final(self)@ == (ActorModel {
                    skipping: old(self)@.skipping.union(blocked_ids(blocked)),
                    ..old(self)@
                })
            }),
    {
        let blocked = blocked_tasks(&self.view.task_order, &self.view.tasks);
        let ghost was = self@;
        let mut out: Vec<TaskId> = Vec::new();
        let mut i: usize = 0;
        assert(was.skipping.union(blocked_ids(blocked@.subrange(0, 0))) =~= was.skipping);
        while i < blocked.len()
            invariant
                i <= blocked@.len(),
                out@ == to_skip(blocked@.subrange(0, i as int), was.skipping),
                self@ == (ActorModel {
                    skipping: was.skipping.union(blocked_ids(blocked@.subrange(0, i as int))),
                    ..was
                }),
                forall|id: TaskId|
                    self@.skipping.contains(id) <==> (was.skipping.contains(id) || out@.contains(
                        id,
                    )),
            decreases blocked@.len() - i,
        {
            let id: TaskId = blocked[i].task_id;
            let ghost before = out@;
            let ghost skipping = self@.skipping;
            proof {
                let a = blocked@.subrange(0, i as int);
                let b = blocked@.subrange(0, i + 1);
                assert(b.drop_last() =~= a);
                assert(b.last() == blocked@[i as int]);
                let f = |b: Blocked| b.task_id;
                assert(b.map_values(f) =~= a.map_values(f).push(id));
                assert forall|x: TaskId| blocked_ids(b).contains(x) <==> (blocked_ids(a).contains(x)
                    || x == id) by {
                    if a.map_values(f).contains(x) {
                        let m = choose|m: int|
                            0 <= m < a.len() && a.map_values(f)[m] == x;
                        assert(b.map_values(f)[m] == x);
                    }
                    if x == id {
                        assert(b.map_values(f)[i as int] == x);
                    }
                }
                assert(was.skipping.union(blocked_ids(b)) =~= was.skipping.union(
                    blocked_ids(a),
                ).insert(id));
            }
            if self.skipping.insert(id) {
                out.push(id);
                assert(out@[before.len() as int] == id);
                assert forall|x: TaskId| before.contains(x) implies out@.contains(x) by {
                    let m = choose|m: int| 0 <= m < before.len() && before[m] == x;
                    assert(out@[m] == x);
                }
            }
            i = i + 1;
        }
        assert(blocked@.subrange(0, blocked@.len() as int) =~= blocked@);
        out
    }

    // -- noting -------------------------------------------------------------
    /// The tasks that are over and not noted on the run yet, in order, each once.
    pub fn note_terminal_tasks(&mut self) -> (r: Vec<TerminalNote>)
        ensures
            r@ == old(self)@.notes_of(old(self)@.to_note()),
            final(self)@ == (ActorModel {
                noted: old(self)@.noted.union(old(self)@.to_note().to_set()),
                outcomes_recorded: old(self)@.recorded_after(old(self)@.to_note()),
                ..old(self)@
            }),
    {
        let ids = self.tasks_to_note();
        let ghost was = self@;
        let mut out: Vec<TerminalNote> = Vec::new();
        let mut i: usize = 0;
        assert(was.noted.union(ids@.subrange(0, 0).to_set()) =~= was.noted);
        while i < ids.len()
            invariant
                i <= ids@.len(),
                ids@ == was.to_note(),
                out@ == was.notes_of(ids@.subrange(0, i as int)),
                self@ == (ActorModel {
                    noted: was.noted.union(ids@.subrange(0, i as int).to_set()),
                    outcomes_recorded: was.recorded_after(ids@.subrange(0, i as int)),
                    ..was
                }),
                forall|k: int| 0 <= k < ids@.len() ==> was.must_note(#[trigger] ids@[k]),
            decreases ids@.len() - i,
        {
            let id: TaskId = ids[i];
            proof {
                let a = ids@.subrange(0, i as int);
                let b = ids@.subrange(0, i + 1);
                assert(b.drop_last() =~= a);
                assert(b.last() == id);
                assert(b =~= a.push(id));
                assert forall|x: TaskId| b.to_set().contains(x) <==> (a.to_set().contains(x) || x
                    == id) by {
                    if a.contains(x) {
                        let m = choose|m: int| 0 <= m < a.len() && a[m] == x;
                        assert(b[m] == x);
                    }
                    if x == id {
                        assert(b[i as int] == x);
                    }
                }
                assert(was.noted.union(b.to_set()) =~= was.noted.union(a.to_set()).insert(id));
                assert(was.must_note(ids@[i as int]));
            }
            let (note, attempt) = self.terminal_note(id);
            if let Some(attempt_id) = attempt {
                self.outcomes_recorded.insert(attempt_id);
            }
            self.noted.insert(id);
            out.push(note);
            i = i + 1;
        }
        assert(ids@.subrange(0, ids@.len() as int) =~= ids@);
        out
    }

    fn tasks_to_note(&self) -> (r: Vec<TaskId>)
        ensures
            r@ == self@.to_note(),
            forall|k: int| 0 <= k < r@.len() ==> self@.must_note(#[trigger] r@[k]),
    {
        let order = &self.view.task_order;
        let ghost keep = |id: TaskId| self@.must_note(id);
        let mut out: Vec<TaskId> = Vec::new();
        let mut i: usize = 0;
        assert(out@ =~= order@.subrange(0, 0).filter(keep));
        while i < order.len()
            invariant
                i <= order@.len(),
                order == &self.view.task_order,
                keep == (|id: TaskId| self@.must_note(id)),
                out@ == order@.subrange(0, i as int).filter(keep),
                forall|k: int| 0 <= k < out@.len() ==> self@.must_note(#[trigger] out@[k]),
            decreases order@.len() - i,
        {
            let id: TaskId = order[i];
            proof {
                let s = order@.subrange(0, i as int);
                assert(order@.subrange(0, i + 1) =~= s.push(id));
                assert(s.push(id).drop_last() =~= s);
                reveal(Seq::filter);
            }
            let note = match self.view.tasks.get(&id) {
                Some(task) => !self.noted.contains(&id) && task.terminal && task_outcome(
                    task.status,
                ).is_some(),
                None => false,
            };
            if note {
                out.push(id);
            }
            i = i + 1;
        }
        assert(order@.subrange(0, order@.len() as int) =~= order@);
        out
    }

    /// The note for a task, and the attempt that the router knows of then.
    fn terminal_note(&self, id: TaskId) -> (r: (TerminalNote, Option<u128>))
        requires
            self@.view.tasks.contains_key(id),
            outcome_of(self@.view.tasks[id].status) is Some,
        ensures
            r.0 == self@.note_of(id, self@.outcomes_recorded),
            match (self@.view.tasks[id].kind, self@.view.tasks[id].last_attempt) {
                (Some(_), Some(attempt)) => r.1 == Some(attempt.id),
                _ => r.1 is None,
            },
    {
        match self.view.tasks.get(&id) {
            Some(task) => {
                let outcome = match task_outcome(task.status) {
                    Some(outcome) => outcome,
                    None => TaskOutcome::Failed,
                };
                let (route_outcome, attempt_id) = match (&task.kind, &task.last_attempt) {
                    (Some(kind), Some(attempt)) => {
                        let known = self.outcomes_recorded.contains(&attempt.id);
                        let record = if known {
                            None
                        } else {
                            Some(
                                RecordRouteOutcome {
                                    run_id: self.run_id,
                                    task_id: id,
                                    attempt_id: attempt.id,
                                    task_kind: kind.clone(),
                                    alias: attempt.route.model.clone(),
                                    success: outcome == TaskOutcome::Succeeded,
                                    quality: None,
                                    cost_usd: attempt.usage.cost_usd,
                                    wall_ms: attempt.usage.wall_ms,
                                    failure_class: last_failure(task),
                                },
                            )
                        };
                        (record, Some(attempt.id))
                    },
                    _ => (None, None),
                };
                (TerminalNote { task_id: id, outcome, usage: task.usage, route_outcome }, attempt_id)
            },
            None => (
                TerminalNote {
                    task_id: id,
                    outcome: TaskOutcome::Failed,
                    usage: Usage::zero(),
                    route_outcome: None,
                },
                None,
            ),
        }
    }

    // -- failing ------------------------------------------------------------
    /// Looks at the task that resolves conflicts: when it is done the integration
    /// is tried again, and when it failed for good the run fails.
    pub fn check_integration_task(&mut self) -> (r: Option<StopAll>)
        ensures
            conflict_task_checked(old(self)@, final(self)@, r),
    {
        let task_id: TaskId = match self.integration_task {
            Some(id) => id,
            None => {
                return None;
            },
        };
        let (status, can_retry) = match self.view.tasks.get(&task_id) {
            Some(task) => (task.status, task.can_retry),
            None => {
                return None;
            },
        };
        if status == TaskStatus::Succeeded {
            self.integration_task = None;
            self.integration_in_flight = false;
            return None;
        }
        if status != TaskStatus::Failed || can_retry {
            return None;
        }
        self.integration_task = None;
        self.request_failure(
            Failure {
                reason: RunFailureReason::IntegrationFailed,
                class: FailureClass::Permanent,
                message: Some("the conflict-resolution task failed".to_owned()),
            },
        )
    }

    fn task_fails_run(&self, id: TaskId, kohral: bool) -> (r: Option<FailureClass>)
        requires
            kohral == self@.kohral(),
        ensures
            r == (if self@.fails_run(id) {
                last_failure_of(self@.view.tasks[id])
            } else {
                None
            }),
    {
        let conflict_task = match self.integration_task {
            Some(t) => t == id,
            None => false,
        };
        match self.view.tasks.get(&id) {
            Some(task) => {
                let failed = match task.status {
                    TaskStatus::Failed => true,
                    _ => false,
                };
                let optional = match &task.spec {
                    Some(spec) => spec.optional,
                    None => false,
                };
                if conflict_task || !failed || optional {
                    return None;
                }
                match last_failure(task) {
                    Some(class) => if task.can_retry && retry_allowed(class, kohral) {
                        None
                    } else {
                        Some(class)
                    },
                    None => None,
                }
            },
            None => None,
        }
    }

    /// The class of the first task, by id, that failed for good and takes the run
    /// with it.
    fn required_failure(&self) -> (r: Option<FailureClass>)
        ensures
            match r {
                None => forall|id: TaskId| !(#[trigger] self@.fails_run(id)),
                Some(class) => exists|id: TaskId| #[trigger]
                    self@.fails_run_first(id) && last_failure_of(self@.view.tasks[id]) == Some(
                        class,
                    ),
            },
    {
        let kohral = is_kohral(&self.view.run.mode);
        let ids = keys_of(&self.view.tasks);
        let mut i: usize = 0;
        while i < ids.len()
            invariant
                i <= ids@.len(),
                kohral == self@.kohral(),
                ascending(ids@),
                forall|k: u128| ids@.contains(k) <==> self.view.tasks@.contains_key(k),
                forall|k: int| 0 <= k < i ==> !self@.fails_run(#[trigger] ids@[k]),
            decreases ids@.len() - i,
        {
            let id: TaskId = ids[i];
            if let Some(class) = self.task_fails_run(id, kohral) {
                assert forall|other: TaskId| #[trigger] self@.fails_run(other) implies id
                    <= other by {
                    assert(ids@.contains(other));
                    let k = choose|k: int| 0 <= k < ids@.len() && ids@[k] == other;
                    assert(!(k < i)) by {
                        if k < i {
                            assert(!self@.fails_run(ids@[k]));
                        }
                    }
                }
                assert(self@.fails_run_first(id));
                return Some(class);
            }
            i = i + 1;
        }
        assert forall|id: TaskId| !(#[trigger] self@.fails_run(id)) by {
            if self@.fails_run(id) {
                assert(ids@.contains(id));
                let k = choose|k: int| 0 <= k < ids@.len() && ids@[k] == id;
                assert(!self@.fails_run(ids@[k]));
            }
        }
        None
    }

    /// A required task that failed for good fails the run. The first one by id
    /// says how; a task that was only cancelled does not.
    pub fn check_required_failures(&mut self) -> (r: Option<StopAll>)
        ensures
            required_failures_checked(old(self)@, final(self)@, r),
    {
        if self.pending_failure.is_some() {
            return None;
        }
        let class = match self.required_failure() {
            Some(class) => class,
            None => {
                assert forall|id: TaskId| #[trigger] self@.fails_run_first(id) implies false by {
                    assert(self@.fails_run(id));
                }
                return None;
            },
        };
        let ghost first = choose|id: TaskId| #[trigger]
            self@.fails_run_first(id) && last_failure_of(self@.view.tasks[id]) == Some(class);
        proof {
            assert(self@.fails_run(first));
            assert forall|id: TaskId| #[trigger] self@.fails_run_first(id) implies id == first by {
                assert(self@.fails_run(id));
            }
        }
        let reason = match class {
            FailureClass::Cancelled => {
                return None;
            },
            FailureClass::Budget => RunFailureReason::BudgetExhausted,
            FailureClass::RuntimeRestarted => RunFailureReason::RuntimeRestarted,
            _ => RunFailureReason::TaskFailed,
        };
        self.request_failure(Failure { reason, class, message: None })
    }
}

// ---------------------------------------------------------------------------
// Laws
// ---------------------------------------------------------------------------
/// Kohral runs never go on after a restart; other runs do wherever the class
/// allows it.
pub proof fn law_kohral_never_retries_a_restart(class: FailureClass)
    ensures
        !is_retry_allowed(FailureClass::RuntimeRestarted, true),
        is_retry_allowed(class, false) == class.retryable(),
        is_retry_allowed(class, true) ==> is_retry_allowed(class, false),
{
}

/// A task that is to be tried again does not fail the run.
pub proof fn law_a_task_to_retry_does_not_fail_the_run(actor: ActorModel, id: TaskId)
    requires
        actor.wants_retry(id),
    ensures
        !actor.fails_run(id),
{
}

/// A task that was noted is not noted again.
pub proof fn law_a_task_is_noted_once(actor: ActorModel)
    ensures
        ({
            let after = ActorModel {
                noted: actor.noted.union(actor.to_note().to_set()),
                outcomes_recorded: actor.recorded_after(actor.to_note()),
                ..actor
            };
            after.to_note().len() == 0
        }),
{
    let after = ActorModel {
        noted: actor.noted.union(actor.to_note().to_set()),
        outcomes_recorded: actor.recorded_after(actor.to_note()),
        ..actor
    };
    let keep = |id: TaskId| after.must_note(id);
    let was_kept = |id: TaskId| actor.must_note(id);
    let order = actor.view.task_order;
    assert forall|i: int| 0 <= i < order.len() implies !keep(#[trigger] order[i]) by {
        if actor.must_note(order[i]) {
            assert(was_kept(order[i]));
            order.lemma_filter_contains(was_kept, i);
        }
    }
    lemma_filter_none(order, keep);
}

proof fn lemma_filter_none(s: Seq<TaskId>, keep: spec_fn(TaskId) -> bool)
    requires
        forall|i: int| 0 <= i < s.len() ==> !keep(#[trigger] s[i]),
    ensures
        s.filter(keep).len() == 0,
    decreases s.len(),
{
    reveal(Seq::filter);
    if s.len() > 0 {
        let rest = s.drop_last();
        assert forall|i: int| 0 <= i < rest.len() implies !keep(#[trigger] rest[i]) by {
            assert(rest[i] == s[i]);
        }
        lemma_filter_none(rest, keep);
        assert(!keep(s[s.len() - 1]));
    }
}

/// A required task that failed for good fails the run: where the task is the
/// first such one, the run fails with the class of the task's last failure, for
/// the budget where that was spent, for the restart where the attempt died with
/// the process, and otherwise because the task failed. A task that was only
/// cancelled takes nothing with it.
pub proof fn law_a_required_failure_fails_the_run(
    was: ActorModel,
    id: TaskId,
    next: ActorModel,
    stop: Option<StopAll>,
)
    requires
        required_failures_checked(was, next, stop),
        was.pending is None,
        was.view.run.status != RunStatus::Completed,
        was.view.run.status != RunStatus::Failed,
        was.view.run.status != RunStatus::Cancelled,
        was.view.tasks.contains_key(id),
        was.view.tasks[id].status == TaskStatus::Failed,
        was.view.tasks[id].spec matches Some(spec) ==> !spec.optional,
        was.view.tasks[id].last_attempt matches Some(attempt) && attempt.failure is Some,
        !was.view.tasks[id].can_retry,
        was.integration_task != Some(id),
        forall|other: TaskId| #[trigger]
            was.view.tasks.contains_key(other) && was.view.tasks[other].status
                == TaskStatus::Failed ==> id <= other,
    ensures
        ({
            let class = was.view.tasks[id].last_attempt->0.failure->0.class;
            &&& class == FailureClass::Cancelled ==> stop is None && next == was
            &&& class != FailureClass::Cancelled ==> {
                &&& stop is Some
                &&& next.pending is Some
                &&& next.pending->0.class == class
                &&& next.pending->0.message is None
                &&& next == (ActorModel { pending: next.pending, ..was })
            }
            &&& class == FailureClass::Transient || class == FailureClass::Permanent
                ==> next.pending->0.reason is TaskFailed && stop->0.class
                == FailureClass::Cancelled && stop->0.message@ == "task_failed"@
            &&& class == FailureClass::Budget ==> next.pending->0.reason is BudgetExhausted
                && stop->0.class == FailureClass::Budget && stop->0.message@ == "budget_exhausted"@
            &&& class == FailureClass::RuntimeRestarted
                ==> next.pending->0.reason is RuntimeRestarted && stop->0.class
                == FailureClass::Cancelled && stop->0.message@ == "runtime_restarted"@
        }),
{
    assert(was.fails_run(id));
    assert forall|other: TaskId| #[trigger] was.fails_run(other) implies id <= other by {
        assert(was.view.tasks.contains_key(other));
    }
    assert(was.fails_run_first(id));
}

/// Only a failed task that is required, is not the conflict task and is not tried
/// again can fail the run: where every failed task is optional, or every one of
/// them is still to be tried again, nothing happens.
pub proof fn law_other_tasks_do_not_fail_the_run(
    was: ActorModel,
    next: ActorModel,
    stop: Option<StopAll>,
)
    requires
        required_failures_checked(was, next, stop),
        forall|id: TaskId| #[trigger]
            was.view.tasks.contains_key(id) ==> was.view.tasks[id].status != TaskStatus::Failed
                || was.integration_task == Some(id) || (was.view.tasks[id].spec matches Some(spec)
                && spec.optional) || (was.view.tasks[id].can_retry && (
            was.view.tasks[id].last_attempt matches Some(attempt) && (
            attempt.failure matches Some(failure) && failure.class == FailureClass::Transient))),
    ensures
        stop is None,
        next == was,
{
    assert forall|id: TaskId| !(#[trigger] was.fails_run(id)) by {
        if was.fails_run(id) {
            assert(was.view.tasks.contains_key(id));
        }
    }
}

/// A failed task may be tried again exactly where the class of its failure leaves
/// hope: after a passing fault, and after a restart except in a Kohral run. A
/// permanent failure, a spent budget and a cancellation are final.
pub proof fn law_only_passing_faults_are_retried(class: FailureClass, kohral: bool)
    ensures
        is_retry_allowed(class, kohral) <==> class == FailureClass::Transient || (class
            == FailureClass::RuntimeRestarted && !kohral),
{
}

/// The tasks that are tried again are the failed ones that may be: each one that
/// has room for an attempt, a kind, no retry on its way, nothing running and a
/// failure that passes. Each is asked for once, with the class of its last
/// failure, and never while the run drains or fails.
pub proof fn law_failed_tasks_are_retried(
    was: ActorModel,
    next: ActorModel,
    retries: Seq<Retry>,
    id: TaskId,
)
    requires
        retries_asked_for(was, next, retries),
    ensures
        was.pending is Some || was.draining ==> retries.len() == 0 && next == was,
        was.pending is None && !was.draining && was.view.tasks.contains_key(id)
            && was.view.tasks[id].status == TaskStatus::Failed && was.view.tasks[id].can_retry
            && was.view.tasks[id].kind is Some && !was.retrying.contains(id)
            && !was.handles.contains_key(id) && (was.view.tasks[id].last_attempt matches Some(a)
            && (a.failure matches Some(f) && f.class == FailureClass::Transient)) ==> (exists|
            i: int,
        |
            0 <= i < retries.len() && (#[trigger] retries[i]).task_id == id && retries[i].class
                == FailureClass::Transient) && next.retrying.contains(id),
        forall|i: int|
            #![trigger retries[i]]
            0 <= i < retries.len() ==> {
                let t = retries[i].task_id;
                &&& was.view.tasks.contains_key(t)
                &&& was.view.tasks[t].status == TaskStatus::Failed
                &&& was.view.tasks[t].can_retry
                &&& was.view.tasks[t].kind is Some
                &&& !was.retrying.contains(t)
                &&& !was.handles.contains_key(t)
                &&& retries[i].class == FailureClass::Transient || retries[i].class
                    == FailureClass::RuntimeRestarted
                &&& was.view.tasks[t].last_attempt matches Some(a) && (a.failure matches Some(f)
                    && f.class == retries[i].class)
                &&& next.retrying.contains(t)
            },
        forall|i: int, j: int|
            #![trigger retries[i], retries[j]]
            0 <= i < j < retries.len() ==> retries[i].task_id < retries[j].task_id,
        next == (ActorModel { retrying: next.retrying, ..was }),
{
    let ids = retries.map_values(|t: Retry| t.task_id);
    if was.pending is None && !was.draining {
        assert forall|i: int| 0 <= i < retries.len() implies ids.contains(
            (#[trigger] retries[i]).task_id,
        ) && was.wants_retry(retries[i].task_id) by {
            assert(ids[i] == retries[i].task_id);
        }
        if was.wants_retry(id) {
            assert(ids.contains(id));
            let i = choose|i: int| 0 <= i < ids.len() && ids[i] == id;
            assert(retries[i].task_id == id);
        }
        assert forall|i: int, j: int|
            #![trigger retries[i], retries[j]]
            0 <= i < j < retries.len() implies retries[i].task_id < retries[j].task_id by {
            assert(ids[i] < ids[j]);
        }
    }
}

/// A task that waits for its retry is not asked for again.
pub proof fn law_a_retry_is_asked_for_once(
    first: ActorModel,
    second: ActorModel,
    one: Seq<Retry>,
    third: ActorModel,
    two: Seq<Retry>,
)
    requires
        retries_asked_for(first, second, one),
        retries_asked_for(second, third, two),
    ensures
        two.len() == 0,
{
    let ids = one.map_values(|t: Retry| t.task_id);
    if first.pending is None && !first.draining {
        let again = two.map_values(|t: Retry| t.task_id);
        if two.len() > 0 {
            assert(again[0] == two[0].task_id);
            assert(again.contains(two[0].task_id));
            assert(second.wants_retry(two[0].task_id));
            assert(first.wants_retry(two[0].task_id));
            assert(ids.contains(two[0].task_id));
        }
    }
}

/// An approved plan has as many tasks created as it names, once; without a plan,
/// or where the run has tasks, none are.
pub proof fn law_a_plan_makes_its_tasks_once(
    first: ActorModel,
    second: ActorModel,
    one: Option<usize>,
    third: ActorModel,
    two: Option<usize>,
)
    requires
        tasks_to_create(first, second, one),
        tasks_to_create(second, third, two),
    ensures
        one is Some <==> first.view.run.plan is Some && !first.tasks_created
            && first.view.run.task_ids@.len() == 0,
        one is Some && first.view.run.plan->0.tasks@.len() <= usize::MAX ==> one->0
            == first.view.run.plan->0.tasks@.len(),
        two is None,
        second == (ActorModel { tasks_created: second.tasks_created, ..first }),
{
}

/// A task's budget is the configured one; the run says how often it may be tried,
/// and it runs one attempt at a time.
pub proof fn law_a_task_gets_the_configured_budget(actor: ActorModel, limits: TaskLimits)
    ensures
        ({
            let budget = actor.budget_of_a_task(limits);
            &&& budget.max_usd == Some(limits.default_task_usd)
            &&& budget.max_tokens == Some(limits.max_tokens_per_task)
            &&& budget.max_wall == Some(limits.default_task_wall)
            &&& budget.max_attempts == actor.view.run.budget.max_attempts
            &&& budget.max_parallel == 1
        }),
{
}

/// Only an end is an outcome, and each end is its own.
pub proof fn law_an_outcome_is_an_end(status: TaskStatus)
    ensures
        outcome_of(status) is None <==> status == TaskStatus::Pending || status
            == TaskStatus::Routed || status == TaskStatus::Running || status
            == TaskStatus::AwaitingInput,
        status == TaskStatus::Succeeded <==> outcome_of(status) == Some(TaskOutcome::Succeeded),
        status == TaskStatus::Failed <==> outcome_of(status) == Some(TaskOutcome::Failed),
        status == TaskStatus::Cancelled <==> outcome_of(status) == Some(TaskOutcome::Cancelled),
        status == TaskStatus::Skipped <==> outcome_of(status) == Some(TaskOutcome::Skipped),
{
}

/// The tasks to note are those of the run that are over and were not noted.
pub proof fn law_every_task_that_is_over_is_noted(actor: ActorModel, id: TaskId)
    ensures
        actor.view.task_order.contains(id) && actor.view.tasks.contains_key(id)
            && actor.view.tasks[id].terminal && !actor.noted.contains(id) && (
        actor.view.tasks[id].status == TaskStatus::Succeeded || actor.view.tasks[id].status
            == TaskStatus::Failed || actor.view.tasks[id].status == TaskStatus::Cancelled
            || actor.view.tasks[id].status == TaskStatus::Skipped) ==> actor.to_note().contains(id),
        actor.to_note().contains(id) ==> actor.view.task_order.contains(id)
            && actor.view.tasks.contains_key(id) && actor.view.tasks[id].terminal
            && !actor.noted.contains(id),
{
    let keep = |id: TaskId| actor.must_note(id);
    let order = actor.view.task_order;
    if order.contains(id) && actor.must_note(id) {
        let i = choose|i: int| 0 <= i < order.len() && order[i] == id;
        assert(keep(order[i]));
        order.lemma_filter_contains(keep, i);
    }
    if actor.to_note().contains(id) {
        let i = choose|i: int| 0 <= i < order.filter(keep).len() && order.filter(keep)[i] == id;
        order.lemma_filter_pred(keep, i);
        assert(keep(id));
        assert(order.filter(keep).contains(id));
        lemma_filter_of(order, keep, id);
    }
}

proof fn lemma_filter_of(s: Seq<TaskId>, keep: spec_fn(TaskId) -> bool, x: TaskId)
    requires
        s.filter(keep).contains(x),
    ensures
        s.contains(x),
    decreases s.len(),
{
    reveal(Seq::filter);
    if s.len() > 0 {
        let rest = s.drop_last();
        if rest.filter(keep).contains(x) {
            lemma_filter_of(rest, keep, x);
            let i = choose|i: int| 0 <= i < rest.len() && rest[i] == x;
            assert(s[i] == x);
        } else {
            let kept = s.filter(keep);
            let i = choose|i: int| 0 <= i < kept.len() && kept[i] == x;
            if i < rest.filter(keep).len() {
                assert(rest.filter(keep)[i] == x);
            }
            assert(s[s.len() - 1] == x);
        }
    }
}

/// A note tells what became of the task and what it used in all. The router hears
/// of the last attempt once: which one it was, on which model, what it cost, how
/// long it took, why it failed, and that it was good exactly where the task
/// succeeded.
pub proof fn law_a_note_tells_the_end_of_a_task(
    actor: ActorModel,
    id: TaskId,
    recorded: Set<u128>,
)
    requires
        actor.view.tasks.contains_key(id),
        outcome_of(actor.view.tasks[id].status) is Some,
    ensures
        ({
            let task = actor.view.tasks[id];
            let note = actor.note_of(id, recorded);
            &&& note.task_id == id
            &&& note.usage == task.usage
            &&& note.outcome == TaskOutcome::Succeeded <==> task.status == TaskStatus::Succeeded
            &&& note.outcome == TaskOutcome::Failed <==> task.status == TaskStatus::Failed
            &&& note.outcome == TaskOutcome::Cancelled <==> task.status == TaskStatus::Cancelled
            &&& note.route_outcome is Some <==> task.kind is Some && task.last_attempt is Some
                && !recorded.contains(task.last_attempt->0.id)
            &&& note.route_outcome matches Some(o) ==> {
                let attempt = task.last_attempt->0;
                &&& o.run_id == actor.run_id
                &&& o.task_id == id
                &&& o.attempt_id == attempt.id
                &&& Some(o.task_kind) == task.kind
                &&& o.alias == attempt.route.model
                &&& o.success == (task.status == TaskStatus::Succeeded)
                &&& o.quality is None
                &&& o.cost_usd == attempt.usage.cost_usd
                &&& o.wall_ms == attempt.usage.wall_ms
                &&& o.failure_class is Some <==> attempt.failure is Some
                &&& attempt.failure matches Some(f) ==> o.failure_class == Some(f.class)
            }
        }),
{
}

/// There is a note for every task to note, in their order.
pub proof fn law_each_task_gets_its_note(actor: ActorModel, ids: Seq<TaskId>, i: int)
    requires
        0 <= i < ids.len(),
    ensures
        actor.notes_of(ids).len() == ids.len(),
        actor.notes_of(ids)[i].task_id == ids[i],
        actor.notes_of(ids)[i].usage == actor.view.tasks[ids[i]].usage,
    decreases ids.len(),
{
    if ids.len() == 1 {
        assert(actor.notes_of(ids.drop_last()).len() == 0);
    } else {
        law_each_task_gets_its_note(
            actor,
            ids.drop_last(),
            if i < ids.len() - 1 {
                i
            } else {
                0
            },
        );
    }
}

/// Skipped are the blocked tasks that are not being skipped, each once.
pub proof fn law_blocked_tasks_are_skipped_once(
    blocked: Seq<Blocked>,
    skipping: Set<TaskId>,
    id: TaskId,
)
    ensures
        to_skip(blocked, skipping).contains(id) <==> !skipping.contains(id) && (exists|i: int|
            0 <= i < blocked.len() && (#[trigger] blocked[i]).task_id == id),
        to_skip(blocked, skipping).no_duplicates(),
    decreases blocked.len(),
{
    let out = to_skip(blocked, skipping);
    if blocked.len() > 0 {
        let rest = blocked.drop_last();
        let before = to_skip(rest, skipping);
        let last = blocked.last().task_id;
        law_blocked_tasks_are_skipped_once(rest, skipping, id);
        law_blocked_tasks_are_skipped_once(rest, skipping, last);
        if exists|i: int| 0 <= i < rest.len() && (#[trigger] rest[i]).task_id == id {
            let i = choose|i: int| 0 <= i < rest.len() && (#[trigger] rest[i]).task_id == id;
            assert(blocked[i].task_id == id);
        }
        if exists|i: int| 0 <= i < blocked.len() && (#[trigger] blocked[i]).task_id == id {
            let i = choose|i: int| 0 <= i < blocked.len() && (#[trigger] blocked[i]).task_id == id;
            if i < rest.len() {
                assert(rest[i].task_id == id);
            }
        }
        if out != before {
            assert(out[before.len() as int] == last);
            if before.contains(id) {
                let k = choose|k: int| 0 <= k < before.len() && before[k] == id;
                assert(out[k] == id);
            }
            if out.contains(id) {
                let k = choose|k: int| 0 <= k < out.len() && out[k] == id;
                if k < before.len() {
                    assert(before[k] == id);
                } else {
                    assert(blocked[blocked.len() - 1].task_id == id);
                }
            }
        }
        if last == id && !skipping.contains(id) {
            assert(blocked[blocked.len() - 1].task_id == id);
        }
    }
}

/// A conflict task that is done frees the integration to be tried again. One that
/// failed for good fails the run for the integration; one that runs, waits or may
/// be tried again is waited for.
pub proof fn law_the_conflict_task_decides_the_integration(
    was: ActorModel,
    next: ActorModel,
    stop: Option<StopAll>,
)
    requires
        conflict_task_checked(was, next, stop),
    ensures
        was.integration_task is None ==> stop is None && next == was,
        was.integration_task matches Some(id) ==> was.view.tasks.contains_key(id) ==> {
            let task = was.view.tasks[id];
            &&& task.status == TaskStatus::Succeeded ==> stop is None && next == (ActorModel {
                integration_task: None,
                integration_in_flight: false,
                ..was
            })
            &&& task.status == TaskStatus::Failed && !task.can_retry && was.pending is None
                && was.view.run.status != RunStatus::Completed && was.view.run.status
                != RunStatus::Failed && was.view.run.status != RunStatus::Cancelled ==> {
                &&& next.integration_task is None
                &&& next.pending matches Some(f) && f.reason is IntegrationFailed && f.class
                    == FailureClass::Permanent
                &&& stop matches Some(s) && s.class == FailureClass::Cancelled
            }
            &&& task.status != TaskStatus::Succeeded && (task.status != TaskStatus::Failed
                || task.can_retry) ==> stop is None && next == was
        },
{
}


} // verus!
