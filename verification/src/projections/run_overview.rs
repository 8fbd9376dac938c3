//! The run list and run detail read model.
//!
//! Source: the events of the run alone, so the row's `version` is the run's
//! aggregate version and every change is guarded by it: a replay changes
//! nothing, and an event that comes out of order never moves the row backwards.
use vstd::prelude::*;

use super::query::{RunOverviewRow, Usd};
use super::replay::{congruent, folded, in_order, lemma_rebuild, lemma_replay, versioned};
use super::{
    clamp_spec, column_sum, excerpt, excerpt_of, position, version, ProjectionError, UsageCols,
};
use crate::domain::{
    add_costs, cost_sum, Budget, Goal, QuestionId, RepoKind, RunId, RunMode, RunStatus, TaskOutcome,
    Usage,
};
use crate::events::{EventMeta, RunEvent};
use crate::text::has_prefix;

verus! {

/// Projection name and checkpoint key.
pub const NAME: &'static str = "run_overview";

/// Characters of the goal text kept in the excerpt.
pub const EXCERPT_CHARS: usize = 160;

/// Builds the run overview from the events of runs.
#[derive(Debug, Clone, Copy, PartialEq, Eq, Structural)]
pub struct RunOverview;

// ---------------------------------------------------------------------------
// Model
// ---------------------------------------------------------------------------
/// `ids` without every occurrence of `id`.
pub open spec fn without(ids: Seq<u128>, id: u128) -> Seq<u128> {
    ids.filter(|x: u128| x != id)
}

/// The row with the version, position and time of the event.
pub open spec fn stamped(r: RunOverviewRow, m: EventMeta) -> RunOverviewRow {
    RunOverviewRow {
        version: clamp_spec(m.aggregate_version),
        last_position: clamp_spec(m.position),
        updated_at: m.occurred_at,
        ..r
    }
}

/// The row with `u` added to its usage columns.
pub open spec fn plus_columns(r: RunOverviewRow, u: UsageCols) -> RunOverviewRow {
    RunOverviewRow {
        input_tokens: (r.input_tokens + u.input) as i64,
        output_tokens: (r.output_tokens + u.output) as i64,
        cache_read_tokens: (r.cache_read_tokens + u.cache_read) as i64,
        cache_write_tokens: (r.cache_write_tokens + u.cache_write) as i64,
        wall_ms: (r.wall_ms + u.wall_ms) as i64,
        cost_usd: Usd(cost_sum(r.cost_usd.0, u.cost).unwrap()),
        ..r
    }
}

pub open spec fn in_i64(n: int) -> bool {
    i64::MIN <= n <= i64::MAX
}

/// The sums of [`plus_columns`] stay in the columns' range.
pub open spec fn columns_fit(r: RunOverviewRow, u: UsageCols) -> bool {
    &&& in_i64(r.input_tokens + u.input)
    &&& in_i64(r.output_tokens + u.output)
    &&& in_i64(r.cache_read_tokens + u.cache_read)
    &&& in_i64(r.cache_write_tokens + u.cache_write)
    &&& in_i64(r.wall_ms + u.wall_ms)
    &&& cost_sum(r.cost_usd.0, u.cost) is Some
}

/// The row with its usage replaced; an unknown cost keeps the known one.
pub open spec fn with_usage(r: RunOverviewRow, usage: Usage) -> RunOverviewRow {
    let u = UsageCols::of(usage);
    RunOverviewRow {
        usage: Some(usage),
        input_tokens: u.input,
        output_tokens: u.output,
        cache_read_tokens: u.cache_read,
        cache_write_tokens: u.cache_write,
        wall_ms: u.wall_ms,
        cost_usd: if u.cost is Some {
            Usd(u.cost)
        } else {
            r.cost_usd
        },
        ..r
    }
}

/// The row after one more task ended with `outcome`.
pub open spec fn counted(r: RunOverviewRow, outcome: TaskOutcome) -> RunOverviewRow {
    match outcome {
        TaskOutcome::Succeeded => RunOverviewRow {
            tasks_succeeded: (r.tasks_succeeded + 1) as i32,
            ..r
        },
        TaskOutcome::Failed => RunOverviewRow { tasks_failed: (r.tasks_failed + 1) as i32, ..r },
        TaskOutcome::Cancelled => RunOverviewRow {
            tasks_cancelled: (r.tasks_cancelled + 1) as i32,
            ..r
        },
        TaskOutcome::Skipped => RunOverviewRow { tasks_skipped: (r.tasks_skipped + 1) as i32, ..r },
    }
}

/// The counter of `outcome`.
pub open spec fn counter(r: RunOverviewRow, outcome: TaskOutcome) -> i32 {
    match outcome {
        TaskOutcome::Succeeded => r.tasks_succeeded,
        TaskOutcome::Failed => r.tasks_failed,
        TaskOutcome::Cancelled => r.tasks_cancelled,
        TaskOutcome::Skipped => r.tasks_skipped,
    }
}

/// The columns that `Started` sets, on top of those of `r`.
pub open spec fn started(
    r: RunOverviewRow,
    goal: Goal,
    mode: RunMode,
    budget: Budget,
    requested_by: String,
    auto_approve_plans: bool,
    m: EventMeta,
    excerpt: String,
) -> RunOverviewRow {
    RunOverviewRow {
        version: clamp_spec(m.aggregate_version),
        status: RunStatus::Received,
        goal_text: goal.text,
        goal_excerpt: excerpt,
        cwd: goal.cwd,
        repo_kind: goal.repo_kind,
        mode,
        requested_by,
        auto_approve_plans,
        budget,
        created_at: m.occurred_at,
        updated_at: m.occurred_at,
        last_position: clamp_spec(m.position),
        ..r
    }
}

/// Nothing is filled in but what `Started` sets.
pub open spec fn fresh(r: RunOverviewRow, run: RunId) -> bool {
    &&& r.run_id == run
    &&& r.usage is None
    &&& r.cost_usd == Usd(None)
    &&& r.input_tokens == 0
    &&& r.output_tokens == 0
    &&& r.cache_read_tokens == 0
    &&& r.cache_write_tokens == 0
    &&& r.wall_ms == 0
    &&& r.planner_route is None
    &&& r.understanding is None
    &&& r.plan is None
    &&& r.plan_revision == 0
    &&& r.open_question_ids@.len() == 0
    &&& r.task_ids@.len() == 0
    &&& r.tasks_total == 0
    &&& r.tasks_succeeded == 0
    &&& r.tasks_failed == 0
    &&& r.tasks_cancelled == 0
    &&& r.tasks_skipped == 0
    &&& r.evaluation_id is None
    &&& r.evaluation_overall is None
    &&& r.evaluation_verdict is None
    &&& r.budget_exhausted is None
    &&& r.failure_reason is None
    &&& r.failure_class is None
    &&& r.failure_message is None
    &&& r.cancelled_by is None
    &&& r.cancel_reason is None
    &&& r.summary is None
    &&& r.artifacts@.len() == 0
}

/// The number of tasks as a column.
pub open spec fn total_column(n: nat) -> i32 {
    if n > i32::MAX {
        i32::MAX
    } else {
        n as i32
    }
}

/// `n` is the row `r` after the event `e` (which is newer than the row).
pub open spec fn step(r: RunOverviewRow, e: RunEvent, m: EventMeta, n: RunOverviewRow) -> bool {
    match e {
        RunEvent::Started { goal, mode, budget, requested_by, auto_approve_plans } => {
            &&& n.goal_excerpt@ == excerpt_of(goal.text@, EXCERPT_CHARS as nat)
            &&& n == started(
                r,
                goal,
                mode,
                budget,
                requested_by,
                auto_approve_plans,
                m,
                n.goal_excerpt,
            )
        },
        RunEvent::UnderstandingStarted { planner_route } => n == (RunOverviewRow {
            status: RunStatus::Understanding,
            planner_route: Some(planner_route),
            ..stamped(r, m)
        }),
        RunEvent::UnderstandingCompleted { understanding, usage, question_ids } => n == (
        RunOverviewRow {
            status: if question_ids@.len() == 0 {
                RunStatus::Planning
            } else {
                RunStatus::AwaitingAnswers
            },
            understanding: Some(understanding),
            open_question_ids: question_ids,
            ..plus_columns(stamped(r, m), UsageCols::of(usage))
        }),
        RunEvent::QuestionAnswered { question_id } => {
            &&& n.open_question_ids@ == without(r.open_question_ids@, question_id)
            &&& n == (RunOverviewRow {
                status: if r.status == RunStatus::AwaitingAnswers && without(
                    r.open_question_ids@,
                    question_id,
                ).len() == 0 {
                    RunStatus::Planning
                } else {
                    r.status
                },
                open_question_ids: n.open_question_ids,
                ..stamped(r, m)
            })
        },
        RunEvent::PlanProposed { plan, usage, revision } => n == (RunOverviewRow {
            status: RunStatus::AwaitingPlanApproval,
            plan: Some(plan),
            plan_revision: revision as i32,
            ..plus_columns(stamped(r, m), UsageCols::of(usage))
        }),
        RunEvent::PlanApproved => n == (RunOverviewRow {
            status: RunStatus::Executing,
            ..stamped(r, m)
        }),
        RunEvent::PlanRejected => n == (RunOverviewRow {
            status: RunStatus::Planning,
            plan_revision: (r.plan_revision + 1) as i32,
            ..stamped(r, m)
        }),
        RunEvent::ExecutionStarted { task_ids } => n == (RunOverviewRow {
            tasks_total: total_column(task_ids@.len()),
            task_ids,
            ..stamped(r, m)
        }),
        RunEvent::UsageRecorded { run_usage } => n == with_usage(stamped(r, m), run_usage),
        RunEvent::TaskTerminalNoted { outcome, run_usage, all_terminal } => n == (RunOverviewRow {
            status: if all_terminal && r.status == RunStatus::Executing {
                RunStatus::Integrating
            } else {
                r.status
            },
            ..counted(with_usage(stamped(r, m), run_usage), outcome)
        }),
        RunEvent::BudgetExhausted { dimension } => n == (RunOverviewRow {
            budget_exhausted: Some(dimension),
            ..stamped(r, m)
        }),
        RunEvent::Integrated { artifacts, summary } => n == (RunOverviewRow {
            status: RunStatus::Evaluating,
            artifacts,
            summary: Some(summary),
            ..stamped(r, m)
        }),
        RunEvent::EvaluationRequested => n == stamped(r, m),
        RunEvent::Evaluated { evaluation_id, overall, verdict } => n == (RunOverviewRow {
            evaluation_id: Some(evaluation_id),
            evaluation_overall: Some(overall),
            evaluation_verdict: Some(verdict),
            ..stamped(r, m)
        }),
        RunEvent::Completed { summary, usage } => n == (RunOverviewRow {
            status: RunStatus::Completed,
            summary: if summary@.len() == 0 {
                r.summary
            } else {
                Some(summary)
            },
            ..with_usage(stamped(r, m), usage)
        }),
        RunEvent::Failed { reason, class, usage, message } => {
            &&& n.failure_reason matches Some(text) && text@ == reason.label()
            &&& n.open_question_ids@.len() == 0
            &&& n == (RunOverviewRow {
                status: RunStatus::Failed,
                failure_reason: n.failure_reason,
                failure_class: Some(class),
                failure_message: message,
                open_question_ids: n.open_question_ids,
                ..with_usage(stamped(r, m), usage)
            })
        },
        RunEvent::Cancelled { by, reason } => {
            &&& n.open_question_ids@.len() == 0
            &&& n == (RunOverviewRow {
                status: RunStatus::Cancelled,
                cancelled_by: Some(by),
                cancel_reason: reason,
                open_question_ids: n.open_question_ids,
                ..stamped(r, m)
            })
        },
    }
}

/// The numbers that the event adds to stay in their columns' range.
pub open spec fn in_range(r: RunOverviewRow, e: RunEvent) -> bool {
    match e {
        RunEvent::UnderstandingCompleted { usage, .. } => columns_fit(r, UsageCols::of(usage)),
        RunEvent::PlanProposed { usage, .. } => columns_fit(r, UsageCols::of(usage)),
        RunEvent::PlanRejected => r.plan_revision < i32::MAX,
        RunEvent::TaskTerminalNoted { outcome, .. } => counter(r, outcome) < i32::MAX,
        _ => true,
    }
}

/// The row already reflects this event or a later one.
pub open spec fn seen(r: RunOverviewRow, m: EventMeta) -> bool {
    r.version >= clamp_spec(m.aggregate_version)
}

/// What the table holds for `run` after the event.
pub open spec fn applied(
    row: Option<RunOverviewRow>,
    run: RunId,
    e: RunEvent,
    m: EventMeta,
    new: Option<RunOverviewRow>,
) -> bool {
    match row {
        Some(r) => if seen(r, m) {
            new == row
        } else {
            new matches Some(n) && step(r, e, m, n)
        },
        None => match e {
            RunEvent::Started { .. } => new matches Some(n) && fresh(n, run) && step(n, e, m, n),
            _ => new is None,
        },
    }
}

/// The row can take the event.
pub open spec fn accepts(row: Option<RunOverviewRow>, e: RunEvent, m: EventMeta) -> bool {
    row matches Some(r) ==> (seen(r, m) || in_range(r, e))
}

// ---------------------------------------------------------------------------
// Projection
// ---------------------------------------------------------------------------
fn remove_all(ids: &Vec<QuestionId>, id: QuestionId) -> (r: Vec<QuestionId>)
    ensures
        r@ == without(ids@, id),
{
    let mut out: Vec<QuestionId> = Vec::new();
    let mut i: usize = 0;
    while i < ids.len()
        invariant
            i <= ids@.len(),
            out@ == without(ids@.subrange(0, i as int), id),
        decreases ids@.len() - i,
    {
        proof {
            let s = ids@.subrange(0, i as int);
            assert(ids@.subrange(0, i + 1) =~= s.push(ids@[i as int]));
            assert(s.push(ids@[i as int]).drop_last() =~= s);
            reveal(Seq::filter);
        }
        if ids[i] != id {
            out.push(ids[i]);
        }
        i = i + 1;
    }
    assert(ids@.subrange(0, ids@.len() as int) =~= ids@);
    out
}

fn stamp(row: RunOverviewRow, meta: &EventMeta) -> (r: RunOverviewRow)
    ensures
        r == stamped(row, *meta),
{
    let mut r = row;
    r.version = version(meta);
    r.last_position = position(meta);
    r.updated_at = meta.occurred_at;
    r
}

fn add_columns(row: RunOverviewRow, u: UsageCols) -> (r: Option<RunOverviewRow>)
    requires
        row.cost_usd.wf(),
        u.cost matches Some(a) ==> a.wf(),
    ensures
        match r {
            Some(n) => columns_fit(row, u) && n == plus_columns(row, u) && n.cost_usd.wf(),
            None => !columns_fit(row, u),
        },
{
    let cost = add_costs(row.cost_usd.0, u.cost);
    let input = column_sum(row.input_tokens, u.input);
    let output = column_sum(row.output_tokens, u.output);
    let cache_read = column_sum(row.cache_read_tokens, u.cache_read);
    let cache_write = column_sum(row.cache_write_tokens, u.cache_write);
    let wall_ms = column_sum(row.wall_ms, u.wall_ms);
    match (input, output, cache_read, cache_write, wall_ms, cost) {
        (Some(i), Some(o), Some(cr), Some(cw), Some(w), Some(c)) => {
            let mut r = row;
            r.input_tokens = i;
            r.output_tokens = o;
            r.cache_read_tokens = cr;
            r.cache_write_tokens = cw;
            r.wall_ms = w;
            r.cost_usd = Usd(c);
            Some(r)
        },
        _ => None,
    }
}

/// Replaces the usage columns (and, for a task that ended, counts it and moves
/// the run from executing to integrating once every task has ended).
fn set_usage(
    row: RunOverviewRow,
    meta: &EventMeta,
    usage: &Usage,
    terminal: Option<(TaskOutcome, bool)>,
) -> (r: Option<RunOverviewRow>)
    ensures
        match terminal {
            None => r == Some(with_usage(stamped(row, *meta), *usage)),
            Some((outcome, all_terminal)) => match r {
                Some(n) => counter(row, outcome) < i32::MAX && n == (RunOverviewRow {
                    status: if all_terminal && row.status == RunStatus::Executing {
                        RunStatus::Integrating
                    } else {
                        row.status
                    },
                    ..counted(with_usage(stamped(row, *meta), *usage), outcome)
                }),
                None => counter(row, outcome) == i32::MAX,
            },
        },
{
    let u = UsageCols::new(usage);
    let mut r = stamp(row, meta);
    r.usage = Some(*usage);
    r.input_tokens = u.input;
    r.output_tokens = u.output;
    r.cache_read_tokens = u.cache_read;
    r.cache_write_tokens = u.cache_write;
    r.wall_ms = u.wall_ms;
    if u.cost.is_some() {
        r.cost_usd = Usd(u.cost);
    }
    if let Some((outcome, all_terminal)) = terminal {
        match outcome {
            TaskOutcome::Succeeded => {
                if r.tasks_succeeded == i32::MAX {
                    return None;
                }
                r.tasks_succeeded = r.tasks_succeeded + 1;
            },
            TaskOutcome::Failed => {
                if r.tasks_failed == i32::MAX {
                    return None;
                }
                r.tasks_failed = r.tasks_failed + 1;
            },
            TaskOutcome::Cancelled => {
                if r.tasks_cancelled == i32::MAX {
                    return None;
                }
                r.tasks_cancelled = r.tasks_cancelled + 1;
            },
            TaskOutcome::Skipped => {
                if r.tasks_skipped == i32::MAX {
                    return None;
                }
                r.tasks_skipped = r.tasks_skipped + 1;
            },
        }
        if all_terminal && r.status == RunStatus::Executing {
            r.status = RunStatus::Integrating;
        }
    }
    Some(r)
}

fn start_row(
    run: RunId,
    goal: Goal,
    mode: RunMode,
    budget: Budget,
    requested_by: String,
    auto_approve_plans: bool,
    meta: &EventMeta,
) -> (n: RunOverviewRow)
    ensures
        fresh(n, run),
        n.goal_excerpt@ == excerpt_of(goal.text@, EXCERPT_CHARS as nat),
        n == started(
            n,
            goal,
            mode,
            budget,
            requested_by,
            auto_approve_plans,
            *meta,
            n.goal_excerpt,
        ),
{
    RunOverviewRow {
        run_id: run,
        version: version(meta),
        status: RunStatus::Received,
        goal_excerpt: excerpt(goal.text.as_str(), EXCERPT_CHARS),
        goal_text: goal.text,
        cwd: goal.cwd,
        repo_kind: goal.repo_kind,
        mode,
        requested_by,
        auto_approve_plans,
        budget,
        usage: None,
        cost_usd: Usd(None),
        input_tokens: 0,
        output_tokens: 0,
        cache_read_tokens: 0,
        cache_write_tokens: 0,
        wall_ms: 0,
        planner_route: None,
        understanding: None,
        plan: None,
        plan_revision: 0,
        open_question_ids: Vec::new(),
        task_ids: Vec::new(),
        tasks_total: 0,
        tasks_succeeded: 0,
        tasks_failed: 0,
        tasks_cancelled: 0,
        tasks_skipped: 0,
        evaluation_id: None,
        evaluation_overall: None,
        evaluation_verdict: None,
        budget_exhausted: None,
        failure_reason: None,
        failure_class: None,
        failure_message: None,
        cancelled_by: None,
        cancel_reason: None,
        summary: None,
        artifacts: Vec::new(),
        created_at: meta.occurred_at,
        updated_at: meta.occurred_at,
        last_position: position(meta),
    }
}

impl RunOverview {
    /// A new projection.
    pub fn new() -> (r: RunOverview)
        ensures
            r == RunOverview,
    {
        RunOverview
    }

    /// Stable name.
    pub fn name(&self) -> (r: &'static str)
        ensures
            r@ == NAME@,
    {
        NAME
    }

    /// Whether the projection cares about `event_type`.
    pub fn handles(&self, event_type: &str) -> (b: bool)
        ensures
            b == has_prefix(event_type@, "run."@),
    {
        crate::text::starts_with(event_type, "run.")
    }

    /// Folds one event of `run` into its row. Fails only where a column cannot
    /// hold the new number.
    #[verifier::rlimit(60)]
    #[verifier::spinoff_prover]
    pub fn handle(
        &self,
        row: Option<RunOverviewRow>,
        run: RunId,
        event: RunEvent,
        meta: &EventMeta,
    ) -> (r: Result<Option<RunOverviewRow>, ProjectionError>)
        requires
            event.wf(),
            row matches Some(r) ==> r.cost_usd.wf(),
        ensures
            match r {
                Ok(new) => accepts(row, event, *meta) && applied(row, run, event, *meta, new) && (
                new matches Some(n) ==> n.cost_usd.wf()),
                Err(err) => err == ProjectionError::OutOfRange && !accepts(row, event, *meta),
            },
    {
        let row = match row {
            Some(row) => row,
            None => {
                return match event {
                    RunEvent::Started { goal, mode, budget, requested_by, auto_approve_plans } => Ok(
                        Some(
                            start_row(
                                run,
                                goal,
                                mode,
                                budget,
                                requested_by,
                                auto_approve_plans,
                                meta,
                            ),
                        ),
                    ),
                    _ => Ok(None),
                };
            },
        };
        if row.version >= version(meta) {
            return Ok(Some(row));
        }
        match event {
            RunEvent::Started { goal, mode, budget, requested_by, auto_approve_plans } => {
                let mut r = stamp(row, meta);
                r.status = RunStatus::Received;
                r.goal_excerpt = excerpt(goal.text.as_str(), EXCERPT_CHARS);
                r.goal_text = goal.text;
                r.cwd = goal.cwd;
                r.repo_kind = goal.repo_kind;
                r.mode = mode;
                r.requested_by = requested_by;
                r.auto_approve_plans = auto_approve_plans;
                r.budget = budget;
                r.created_at = meta.occurred_at;
                Ok(Some(r))
            },
            RunEvent::UnderstandingStarted { planner_route } => {
                let mut r = stamp(row, meta);
                r.status = RunStatus::Understanding;
                r.planner_route = Some(planner_route);
                Ok(Some(r))
            },
            RunEvent::UnderstandingCompleted { understanding, usage, question_ids } => {
                let u = UsageCols::new(&usage);
                match add_columns(stamp(row, meta), u) {
                    Some(sum) => {
                        let mut r = sum;
                        r.status = if question_ids.len() == 0 {
                            RunStatus::Planning
                        } else {
                            RunStatus::AwaitingAnswers
                        };
                        r.understanding = Some(understanding);
                        r.open_question_ids = question_ids;
                        Ok(Some(r))
                    },
                    None => Err(ProjectionError::OutOfRange),
                }
            },
            RunEvent::QuestionAnswered { question_id } => {
                let mut r = stamp(row, meta);
                let open = remove_all(&r.open_question_ids, question_id);
                if r.status == RunStatus::AwaitingAnswers && open.len() == 0 {
                    r.status = RunStatus::Planning;
                }
                r.open_question_ids = open;
                Ok(Some(r))
            },
            RunEvent::PlanProposed { plan, usage, revision } => {
                let u = UsageCols::new(&usage);
                match add_columns(stamp(row, meta), u) {
                    Some(sum) => {
                        let mut r = sum;
                        r.status = RunStatus::AwaitingPlanApproval;
                        r.plan = Some(plan);
                        r.plan_revision = revision as i32;
                        Ok(Some(r))
                    },
                    None => Err(ProjectionError::OutOfRange),
                }
            },
            RunEvent::PlanApproved => {
                let mut r = stamp(row, meta);
                r.status = RunStatus::Executing;
                Ok(Some(r))
            },
            RunEvent::PlanRejected => {
                let mut r = stamp(row, meta);
                if r.plan_revision == i32::MAX {
                    return Err(ProjectionError::OutOfRange);
                }
                r.status = RunStatus::Planning;
                r.plan_revision = r.plan_revision + 1;
                Ok(Some(r))
            },
            RunEvent::ExecutionStarted { task_ids } => {
                let mut r = stamp(row, meta);
                let n: usize = task_ids.len();
                r.tasks_total = if n > 0x7fff_ffff {
                    i32::MAX
                } else {
                    n as i32
                };
                r.task_ids = task_ids;
                Ok(Some(r))
            },
            RunEvent::UsageRecorded { run_usage } => Ok(set_usage(row, meta, &run_usage, None)),
            RunEvent::TaskTerminalNoted { outcome, run_usage, all_terminal } => {
                match set_usage(row, meta, &run_usage, Some((outcome, all_terminal))) {
                    Some(r) => Ok(Some(r)),
                    None => Err(ProjectionError::OutOfRange),
                }
            },
            RunEvent::BudgetExhausted { dimension } => {
                let mut r = stamp(row, meta);
                r.budget_exhausted = Some(dimension);
                Ok(Some(r))
            },
            RunEvent::Integrated { artifacts, summary } => {
                let mut r = stamp(row, meta);
                r.status = RunStatus::Evaluating;
                r.artifacts = artifacts;
                r.summary = Some(summary);
                Ok(Some(r))
            },
            RunEvent::EvaluationRequested => Ok(Some(stamp(row, meta))),
            RunEvent::Evaluated { evaluation_id, overall, verdict } => {
                let mut r = stamp(row, meta);
                r.evaluation_id = Some(evaluation_id);
                r.evaluation_overall = Some(overall);
                r.evaluation_verdict = Some(verdict);
                Ok(Some(r))
            },
            RunEvent::Completed { summary, usage } => {
                match set_usage(row, meta, &usage, None) {
                    Some(done) => {
                        let mut r = done;
                        r.status = RunStatus::Completed;
                        if summary.as_str().unicode_len() > 0 {
                            r.summary = Some(summary);
                        }
                        Ok(Some(r))
                    },
                    None => Err(ProjectionError::OutOfRange),
                }
            },
            RunEvent::Failed { reason, class, usage, message } => {
                match set_usage(row, meta, &usage, None) {
                    Some(done) => {
                        let mut r = done;
                        r.status = RunStatus::Failed;
                        r.failure_reason = Some(reason.name());
                        r.failure_class = Some(class);
                        r.failure_message = message;
                        r.open_question_ids = Vec::new();
                        Ok(Some(r))
                    },
                    None => Err(ProjectionError::OutOfRange),
                }
            },
            RunEvent::Cancelled { by, reason } => {
                let mut r = stamp(row, meta);
                r.status = RunStatus::Cancelled;
                r.cancelled_by = Some(by);
                r.cancel_reason = reason;
                r.open_question_ids = Vec::new();
                Ok(Some(r))
            },
        }
    }
}

/// The column of the repository kind.
pub fn repo_kind_str(kind: RepoKind) -> (r: &'static str)
    ensures
        r@ == (match kind {
            RepoKind::Git => "git"@,
            RepoKind::Jj => "jj"@,
            RepoKind::Plain => "none"@,
        }),
{
    match kind {
        RepoKind::Git => "git",
        RepoKind::Jj => "jj",
        RepoKind::Plain => "none",
    }
}

/// The turn and session of a Kohral run.
#[derive(Debug, PartialEq, Eq)]
pub struct ModeDetail {
    pub turn_id: String,
    pub session_key: String,
    pub session_id: String,
}

/// The mode's name and, for Kohral, its ids.
pub fn mode_columns(mode: &RunMode) -> (r: (&'static str, Option<ModeDetail>))
    ensures
        match *mode {
            RunMode::Interactive => r.0@ == "interactive"@ && r.1 is None,
            RunMode::Headless => r.0@ == "headless"@ && r.1 is None,
            RunMode::Kohral { turn_id, session_key, session_id } => r.0@ == "kohral"@ && r.1
                == Some(ModeDetail { turn_id, session_key, session_id }),
        },
{
    match mode {
        RunMode::Interactive => ("interactive", None),
        RunMode::Headless => ("headless", None),
        RunMode::Kohral { turn_id, session_key, session_id } => (
            "kohral",
            Some(
                ModeDetail {
                    turn_id: turn_id.clone(),
                    session_key: session_key.clone(),
                    session_id: session_id.clone(),
                },
            ),
        ),
    }
}

// ---------------------------------------------------------------------------
// Laws
// ---------------------------------------------------------------------------
/// Applying the same event twice is applying it once.
pub proof fn law_replay_changes_nothing(
    row: Option<RunOverviewRow>,
    run: RunId,
    e: RunEvent,
    m: EventMeta,
    once: Option<RunOverviewRow>,
    twice: Option<RunOverviewRow>,
)
    requires
        applied(row, run, e, m, once),
        applied(once, run, e, m, twice),
    ensures
        twice == once,
{
}

/// An event at or below the version of the row changes nothing, whatever it is.
pub proof fn law_older_events_change_nothing(
    row: RunOverviewRow,
    run: RunId,
    e: RunEvent,
    m: EventMeta,
    new: Option<RunOverviewRow>,
)
    requires
        applied(Some(row), run, e, m, new),
        clamp_spec(m.aggregate_version) <= row.version,
    ensures
        new == Some(row),
{
}

/// No event moves a row's version backwards, and none takes a row away.
pub proof fn law_version_never_goes_back(
    row: RunOverviewRow,
    run: RunId,
    e: RunEvent,
    m: EventMeta,
    new: Option<RunOverviewRow>,
)
    requires
        applied(Some(row), run, e, m, new),
    ensures
        new matches Some(n) && n.version >= row.version && n.run_id == row.run_id,
{
}

/// How an event changes the row of `run`.
pub open spec fn fold_step(run: RunId) -> spec_fn(
    Option<RunOverviewRow>,
    (RunEvent, EventMeta),
    Option<RunOverviewRow>,
) -> bool {
    |row: Option<RunOverviewRow>, e: (RunEvent, EventMeta), new: Option<RunOverviewRow>| applied(row, run, e.0, e.1, new)
}

/// Folding a batch of events in their order once more leaves the row as it was,
/// wherever the batch began.
pub proof fn law_replaying_a_batch_changes_nothing(
    run: RunId,
    rows: Seq<Option<RunOverviewRow>>,
    events: Seq<(RunEvent, EventMeta)>,
    again: Seq<Option<RunOverviewRow>>,
)
    requires
        forall|i: int, j: int|
            0 <= i <= j < events.len() ==> (#[trigger] events[i]).1.aggregate_version <= (
            #[trigger] events[j]).1.aggregate_version,
        folded(fold_step(run), rows, events),
        folded(fold_step(run), again, events),
        again[0] == rows.last(),
    ensures
        forall|i: int| 0 <= i < again.len() ==> #[trigger] again[i] == rows.last(),
{
    let row_version = |r: RunOverviewRow| r.version as int;
    let version = |e: (RunEvent, EventMeta)| clamp_spec(e.1.aggregate_version) as int;
    assert(in_order(events, version));
    assert(versioned(fold_step(run), row_version, version));
    assert forall|i: int| 0 <= i < again.len() implies #[trigger] again[i] == rows.last() by {
        lemma_replay(fold_step(run), row_version, version, rows, events, again, i);
    }
}

/// The two rows show the same.
pub open spec fn same_row(a: Option<RunOverviewRow>, b: Option<RunOverviewRow>) -> bool {
    match (a, b) {
        (Some(x), Some(y)) => {
            &&& x.goal_excerpt@ == y.goal_excerpt@
            &&& x.open_question_ids@ == y.open_question_ids@
            &&& x.task_ids@ == y.task_ids@
            &&& x.artifacts@ == y.artifacts@
            &&& match (x.failure_reason, y.failure_reason) {
                (Some(s), Some(t)) => s@ == t@,
                (None, None) => true,
                _ => false,
            }
            &&& y == (RunOverviewRow {
                goal_excerpt: y.goal_excerpt,
                open_question_ids: y.open_question_ids,
                task_ids: y.task_ids,
                artifacts: y.artifacts,
                failure_reason: y.failure_reason,
                ..x
            })
        },
        (None, None) => true,
        _ => false,
    }
}

proof fn lemma_status_events_keep_same(
    r: RunOverviewRow,
    q: RunOverviewRow,
    e: RunEvent,
    m: EventMeta,
    n: RunOverviewRow,
    o: RunOverviewRow,
)
    requires
        e is UnderstandingStarted || e is PlanApproved || e is PlanRejected || e is BudgetExhausted || e is EvaluationRequested,
        step(r, e, m, n),
        step(q, e, m, o),
        same_row(Some(r), Some(q)),
    ensures
        same_row(Some(n), Some(o)),
{
}

proof fn lemma_result_events_keep_same(
    r: RunOverviewRow,
    q: RunOverviewRow,
    e: RunEvent,
    m: EventMeta,
    n: RunOverviewRow,
    o: RunOverviewRow,
)
    requires
        e is ExecutionStarted || e is Integrated || e is Evaluated,
        step(r, e, m, n),
        step(q, e, m, o),
        same_row(Some(r), Some(q)),
    ensures
        same_row(Some(n), Some(o)),
{
}

proof fn lemma_usage_events_keep_same(
    r: RunOverviewRow,
    q: RunOverviewRow,
    e: RunEvent,
    m: EventMeta,
    n: RunOverviewRow,
    o: RunOverviewRow,
)
    requires
        e is UsageRecorded || e is TaskTerminalNoted || e is Completed,
        step(r, e, m, n),
        step(q, e, m, o),
        same_row(Some(r), Some(q)),
    ensures
        same_row(Some(n), Some(o)),
{
}

proof fn lemma_costly_events_keep_same(
    r: RunOverviewRow,
    q: RunOverviewRow,
    e: RunEvent,
    m: EventMeta,
    n: RunOverviewRow,
    o: RunOverviewRow,
)
    requires
        e is UnderstandingCompleted || e is PlanProposed,
        step(r, e, m, n),
        step(q, e, m, o),
        same_row(Some(r), Some(q)),
    ensures
        same_row(Some(n), Some(o)),
{
}

proof fn lemma_question_events_keep_same(
    r: RunOverviewRow,
    q: RunOverviewRow,
    e: RunEvent,
    m: EventMeta,
    n: RunOverviewRow,
    o: RunOverviewRow,
)
    requires
        e is Started || e is QuestionAnswered,
        step(r, e, m, n),
        step(q, e, m, o),
        same_row(Some(r), Some(q)),
    ensures
        same_row(Some(n), Some(o)),
{
}

proof fn lemma_failures_keep_same(
    r: RunOverviewRow,
    q: RunOverviewRow,
    e: RunEvent,
    m: EventMeta,
    n: RunOverviewRow,
    o: RunOverviewRow,
)
    requires
        e is Failed || e is Cancelled,
        step(r, e, m, n),
        step(q, e, m, o),
        same_row(Some(r), Some(q)),
    ensures
        same_row(Some(n), Some(o)),
{
    assert(n.open_question_ids@ =~= o.open_question_ids@);
}

proof fn lemma_step_keeps_same(
    run: RunId,
    a: Option<RunOverviewRow>,
    b: Option<RunOverviewRow>,
    e: (RunEvent, EventMeta),
    x: Option<RunOverviewRow>,
    y: Option<RunOverviewRow>,
)
    requires
        applied(a, run, e.0, e.1, x),
        applied(b, run, e.0, e.1, y),
        same_row(a, b),
    ensures
        same_row(x, y),
{
    if let (Some(r), Some(q)) = (a, b) {
        if !seen(r, e.1) {
            let (n, o) = (x->0, y->0);
            match e.0 {
                RunEvent::UnderstandingStarted { .. }
                | RunEvent::PlanApproved
                | RunEvent::PlanRejected
                | RunEvent::BudgetExhausted { .. }
                | RunEvent::EvaluationRequested => {
                    lemma_status_events_keep_same(r, q, e.0, e.1, n, o);
                },
                RunEvent::ExecutionStarted { .. }
                | RunEvent::Integrated { .. }
                | RunEvent::Evaluated { .. } => {
                    lemma_result_events_keep_same(r, q, e.0, e.1, n, o);
                },
                RunEvent::UsageRecorded { .. }
                | RunEvent::TaskTerminalNoted { .. }
                | RunEvent::Completed { .. } => {
                    lemma_usage_events_keep_same(r, q, e.0, e.1, n, o);
                },
                RunEvent::UnderstandingCompleted { .. } | RunEvent::PlanProposed { .. } => {
                    lemma_costly_events_keep_same(r, q, e.0, e.1, n, o);
                },
                RunEvent::Started { .. } | RunEvent::QuestionAnswered { .. } => {
                    lemma_question_events_keep_same(r, q, e.0, e.1, n, o);
                },
                RunEvent::Failed { .. } | RunEvent::Cancelled { .. } => {
                    lemma_failures_keep_same(r, q, e.0, e.1, n, o);
                },
            }
        }
    } else if let (Some(n), Some(o)) = (x, y) {
        assert(n.open_question_ids@ =~= o.open_question_ids@);
        assert(n.task_ids@ =~= o.task_ids@);
        assert(n.artifacts@ =~= o.artifacts@);
    }
}

/// A rebuild ends with the row that was there before: folding the same events from
/// an empty table a second time gives the same row after each of them.
pub proof fn law_a_rebuild_gives_the_same_row(
    run: RunId,
    rows: Seq<Option<RunOverviewRow>>,
    again: Seq<Option<RunOverviewRow>>,
    events: Seq<(RunEvent, EventMeta)>,
)
    requires
        folded(fold_step(run), rows, events),
        folded(fold_step(run), again, events),
        rows[0] is None,
        again[0] is None,
    ensures
        forall|i: int| 0 <= i < rows.len() ==> same_row(#[trigger] rows[i], again[i]),
{
    let same = |a: Option<RunOverviewRow>, b: Option<RunOverviewRow>| same_row(a, b);
    assert forall|
        a: Option<RunOverviewRow>,
        b: Option<RunOverviewRow>,
        e: (RunEvent, EventMeta),
        x: Option<RunOverviewRow>,
        y: Option<RunOverviewRow>,
    |
        #![trigger fold_step(run)(a, e, x), fold_step(run)(b, e, y)]
        fold_step(run)(a, e, x) && fold_step(run)(b, e, y) && same(a, b) implies same(x, y) by {
        lemma_step_keeps_same(run, a, b, e, x, y);
    }
    assert(congruent(fold_step(run), same));
    assert forall|i: int| 0 <= i < rows.len() implies same_row(#[trigger] rows[i], again[i]) by {
        lemma_rebuild(fold_step(run), same, rows, again, events, i);
    }
}

/// A row's status follows the life of its run: each event that moves the run
/// leads to its own status, whatever the row showed before, and the others leave
/// the status alone. An answer ends the wait for answers when it is the last one,
/// and a task that ends takes an executing run to the integration when it is the
/// last one.
pub proof fn law_the_status_follows_the_run(
    row: RunOverviewRow,
    run: RunId,
    e: RunEvent,
    m: EventMeta,
    new: Option<RunOverviewRow>,
)
    requires
        applied(Some(row), run, e, m, new),
        row.version < m.aggregate_version <= i64::MAX,
    ensures
        new is Some,
        match e {
            RunEvent::Started { .. } => new->0.status == RunStatus::Received,
            RunEvent::UnderstandingStarted { .. } => new->0.status == RunStatus::Understanding,
            RunEvent::UnderstandingCompleted { question_ids, .. } => {
                &&& question_ids@.len() == 0 ==> new->0.status == RunStatus::Planning
                &&& question_ids@.len() > 0 ==> new->0.status == RunStatus::AwaitingAnswers
            },
            RunEvent::QuestionAnswered { question_id } => {
                &&& row.status == RunStatus::AwaitingAnswers && (forall|i: int|
                    0 <= i < row.open_question_ids@.len() ==> #[trigger] row.open_question_ids@[i]
                        == question_id) ==> new->0.status == RunStatus::Planning
                &&& (exists|i: int|
                    0 <= i < row.open_question_ids@.len() && #[trigger] row.open_question_ids@[i]
                        != question_id) ==> new->0.status == row.status
                &&& row.status != RunStatus::AwaitingAnswers ==> new->0.status == row.status
            },
            RunEvent::PlanProposed { .. } => new->0.status == RunStatus::AwaitingPlanApproval,
            RunEvent::PlanApproved => new->0.status == RunStatus::Executing,
            RunEvent::PlanRejected => new->0.status == RunStatus::Planning,
            RunEvent::ExecutionStarted { .. } => new->0.status == row.status,
            RunEvent::UsageRecorded { .. } => new->0.status == row.status,
            RunEvent::TaskTerminalNoted { all_terminal, .. } => {
                &&& all_terminal && row.status == RunStatus::Executing ==> new->0.status
                    == RunStatus::Integrating
                &&& !all_terminal ==> new->0.status == row.status
                &&& row.status != RunStatus::Executing ==> new->0.status == row.status
            },
            RunEvent::BudgetExhausted { .. } => new->0.status == row.status,
            RunEvent::Integrated { .. } => new->0.status == RunStatus::Evaluating,
            RunEvent::EvaluationRequested => new->0.status == row.status,
            RunEvent::Evaluated { .. } => new->0.status == row.status,
            RunEvent::Completed { .. } => new->0.status == RunStatus::Completed,
            RunEvent::Failed { .. } => new->0.status == RunStatus::Failed,
            RunEvent::Cancelled { .. } => new->0.status == RunStatus::Cancelled,
        },
{
    if let RunEvent::QuestionAnswered { question_id } = e {
        lemma_without(row.open_question_ids@, question_id);
    }
}

proof fn lemma_without(ids: Seq<u128>, id: u128)
    ensures
        without(ids, id).len() == 0 <==> (forall|i: int|
            0 <= i < ids.len() ==> #[trigger] ids[i] == id),
        forall|x: u128| #[trigger] without(ids, id).contains(x) <==> x != id && ids.contains(x),
    decreases ids.len(),
{
    let keep = |x: u128| x != id;
    reveal(Seq::filter);
    if ids.len() > 0 {
        let rest = ids.drop_last();
        lemma_without(rest, id);
        assert forall|x: u128| #[trigger] without(ids, id).contains(x) <==> x != id && ids.contains(
            x,
        ) by {
            let kept = without(ids, id);
            let before = without(rest, id);
            if ids.last() != id {
                assert(kept == before.push(ids.last()));
                assert(kept[before.len() as int] == ids.last());
            }
            if before.contains(x) {
                let k = choose|k: int| 0 <= k < before.len() && before[k] == x;
                assert(kept[k] == x);
            }
            if kept.contains(x) {
                let k = choose|k: int| 0 <= k < kept.len() && kept[k] == x;
                if k < before.len() {
                    assert(before[k] == x);
                    let j = choose|j: int| 0 <= j < rest.len() && rest[j] == x;
                    assert(ids[j] == x);
                } else {
                    assert(ids[ids.len() - 1] == x);
                }
            }
            if ids.contains(x) {
                let k = choose|k: int| 0 <= k < ids.len() && ids[k] == x;
                if k < rest.len() {
                    assert(rest[k] == x);
                }
            }
        }
        assert forall|i: int| 0 <= i < rest.len() implies rest[i] == ids[i] by {}
        if forall|i: int| 0 <= i < ids.len() ==> #[trigger] ids[i] == id {
            assert forall|i: int| 0 <= i < rest.len() implies #[trigger] rest[i] == id by {
                assert(rest[i] == ids[i]);
            }
            assert(ids[ids.len() - 1] == id);
        }
        if without(ids, id).len() == 0 {
            assert forall|i: int| 0 <= i < ids.len() implies #[trigger] ids[i] == id by {
                if i < rest.len() {
                    assert(rest[i] == ids[i]);
                }
            }
        }
    }
}

/// A row tells when it was last changed and by which event: its version, its
/// position and its time are those of the event, and it keeps the run and the time
/// of its start.
pub proof fn law_a_row_tells_its_event(
    row: RunOverviewRow,
    run: RunId,
    e: RunEvent,
    m: EventMeta,
    new: Option<RunOverviewRow>,
)
    requires
        applied(Some(row), run, e, m, new),
        row.version < m.aggregate_version <= i64::MAX,
        m.position <= i64::MAX,
    ensures
        new is Some,
        new->0.version == m.aggregate_version,
        new->0.last_position == m.position,
        new->0.updated_at == m.occurred_at,
        new->0.run_id == row.run_id,
        !(e is Started) ==> new->0.created_at == row.created_at && new->0.goal_text == row.goal_text
            && new->0.cwd == row.cwd && new->0.mode == row.mode && new->0.budget == row.budget
            && new->0.requested_by == row.requested_by && new->0.repo_kind == row.repo_kind
            && new->0.auto_approve_plans == row.auto_approve_plans,
{
}

/// The first event of a run makes its row: received, with the goal as it was
/// asked for and nothing else filled in. No other event makes one.
pub proof fn law_a_run_starts_its_row(
    run: RunId,
    e: RunEvent,
    m: EventMeta,
    new: Option<RunOverviewRow>,
)
    requires
        applied(None, run, e, m, new),
    ensures
        new is Some <==> e is Started,
        e matches RunEvent::Started { goal, mode, budget, requested_by, auto_approve_plans } ==> {
            let n = new->0;
            &&& n.run_id == run
            &&& n.status == RunStatus::Received
            &&& n.goal_text == goal.text
            &&& n.cwd == goal.cwd
            &&& n.repo_kind == goal.repo_kind
            &&& n.mode == mode
            &&& n.budget == budget
            &&& n.requested_by == requested_by
            &&& n.auto_approve_plans == auto_approve_plans
            &&& n.created_at == m.occurred_at
            &&& n.usage is None
            &&& n.cost_usd == Usd(None)
            &&& n.input_tokens == 0 && n.output_tokens == 0 && n.cache_read_tokens == 0
                && n.cache_write_tokens == 0 && n.wall_ms == 0
            &&& n.tasks_total == 0 && n.tasks_succeeded == 0 && n.tasks_failed == 0
                && n.tasks_cancelled == 0 && n.tasks_skipped == 0
            &&& n.open_question_ids@.len() == 0 && n.task_ids@.len() == 0 && n.artifacts@.len() == 0
            &&& n.plan is None && n.summary is None && n.failure_reason is None
                && n.failure_class is None && n.cancelled_by is None
        },
{
}

/// Every task that ends counts once, under its own outcome, and nothing else
/// counts; the number of all tasks is set when the execution starts.
pub proof fn law_ended_tasks_are_counted(
    row: RunOverviewRow,
    run: RunId,
    e: RunEvent,
    m: EventMeta,
    new: Option<RunOverviewRow>,
)
    requires
        applied(Some(row), run, e, m, new),
        accepts(Some(row), e, m),
        row.version < m.aggregate_version <= i64::MAX,
    ensures
        ({
            let n = new->0;
            &&& e matches RunEvent::TaskTerminalNoted { outcome, .. } ==> {
                &&& outcome == TaskOutcome::Succeeded <==> n.tasks_succeeded == row.tasks_succeeded
                    + 1
                &&& outcome == TaskOutcome::Failed <==> n.tasks_failed == row.tasks_failed + 1
                &&& outcome == TaskOutcome::Cancelled <==> n.tasks_cancelled == row.tasks_cancelled
                    + 1
                &&& outcome == TaskOutcome::Skipped <==> n.tasks_skipped == row.tasks_skipped + 1
                &&& n.tasks_succeeded + n.tasks_failed + n.tasks_cancelled + n.tasks_skipped
                    == row.tasks_succeeded + row.tasks_failed + row.tasks_cancelled
                    + row.tasks_skipped + 1
                &&& row.tasks_succeeded <= n.tasks_succeeded && row.tasks_failed <= n.tasks_failed
                    && row.tasks_cancelled <= n.tasks_cancelled && row.tasks_skipped
                    <= n.tasks_skipped
            }
            &&& !(e is TaskTerminalNoted) ==> n.tasks_succeeded == row.tasks_succeeded
                && n.tasks_failed == row.tasks_failed && n.tasks_cancelled == row.tasks_cancelled
                && n.tasks_skipped == row.tasks_skipped
            &&& e matches RunEvent::ExecutionStarted { task_ids } ==> n.task_ids == task_ids && (
            task_ids@.len() <= i32::MAX ==> n.tasks_total == task_ids@.len())
            &&& !(e is ExecutionStarted) ==> n.task_ids == row.task_ids && n.tasks_total
                == row.tasks_total
        }),
{
}

/// What a run has used: the planner's calls are added to the columns one by one,
/// and every account of the whole run takes their place. A cost that is not known
/// leaves the known one.
pub proof fn law_usage_is_shown(
    row: RunOverviewRow,
    run: RunId,
    e: RunEvent,
    m: EventMeta,
    new: Option<RunOverviewRow>,
    u: Usage,
)
    requires
        applied(Some(row), run, e, m, new),
        accepts(Some(row), e, m),
        row.version < m.aggregate_version <= i64::MAX,
        u.input_tokens <= i64::MAX,
        u.output_tokens <= i64::MAX,
        u.cache_read_tokens <= i64::MAX,
        u.cache_write_tokens <= i64::MAX,
        u.wall_ms <= i64::MAX,
    ensures
        (e matches RunEvent::UnderstandingCompleted { usage, .. } && usage == u) || (
        e matches RunEvent::PlanProposed { usage, .. } && usage == u) ==> {
            let n = new->0;
            &&& n.input_tokens == row.input_tokens + u.input_tokens
            &&& n.output_tokens == row.output_tokens + u.output_tokens
            &&& n.cache_read_tokens == row.cache_read_tokens + u.cache_read_tokens
            &&& n.cache_write_tokens == row.cache_write_tokens + u.cache_write_tokens
            &&& n.wall_ms == row.wall_ms + u.wall_ms
            &&& u.cost_usd is None ==> n.cost_usd == row.cost_usd
            &&& row.cost_usd == Usd(None) ==> n.cost_usd == Usd(u.cost_usd)
            &&& n.usage == row.usage
        },
        (e matches RunEvent::UsageRecorded { run_usage } && run_usage == u) || (
        e matches RunEvent::TaskTerminalNoted { run_usage, .. } && run_usage == u) || (
        e matches RunEvent::Completed { usage, .. } && usage == u) || (
        e matches RunEvent::Failed { usage, .. } && usage == u) ==> {
            let n = new->0;
            &&& n.usage == Some(u)
            &&& n.input_tokens == u.input_tokens
            &&& n.output_tokens == u.output_tokens
            &&& n.cache_read_tokens == u.cache_read_tokens
            &&& n.cache_write_tokens == u.cache_write_tokens
            &&& n.wall_ms == u.wall_ms
            &&& u.cost_usd is Some ==> n.cost_usd == Usd(u.cost_usd)
            &&& u.cost_usd is None ==> n.cost_usd == row.cost_usd
        },
        !(e is UnderstandingCompleted || e is PlanProposed || e is UsageRecorded
            || e is TaskTerminalNoted || e is Completed || e is Failed) ==> {
            let n = new->0;
            &&& n.usage == row.usage
            &&& n.cost_usd == row.cost_usd
            &&& n.input_tokens == row.input_tokens
            &&& n.output_tokens == row.output_tokens
            &&& n.cache_read_tokens == row.cache_read_tokens
            &&& n.cache_write_tokens == row.cache_write_tokens
            &&& n.wall_ms == row.wall_ms
        },
{
}

/// What else an event leaves in the row: the planner's route, its understanding
/// and its plan, the open questions, the budget that was spent, the results, the
/// judgement, and why a run failed or who cancelled it. A column that an event has
/// nothing to say about keeps what it shows.
pub proof fn law_each_event_fills_its_columns(
    row: RunOverviewRow,
    run: RunId,
    e: RunEvent,
    m: EventMeta,
    new: Option<RunOverviewRow>,
    id: QuestionId,
)
    requires
        applied(Some(row), run, e, m, new),
        accepts(Some(row), e, m),
        row.version < m.aggregate_version <= i64::MAX,
    ensures
        ({
            let n = new->0;
            &&& e matches RunEvent::UnderstandingStarted { planner_route } ==> n.planner_route
                == Some(planner_route)
            &&& !(e is UnderstandingStarted) ==> n.planner_route == row.planner_route
            &&& e matches RunEvent::UnderstandingCompleted { understanding, question_ids, .. }
                ==> n.understanding == Some(understanding) && n.open_question_ids == question_ids
            &&& !(e is UnderstandingCompleted) ==> n.understanding == row.understanding
            &&& e matches RunEvent::QuestionAnswered { question_id } ==> (
            n.open_question_ids@.contains(id) <==> id != question_id
                && row.open_question_ids@.contains(id))
            &&& e is Failed || e is Cancelled ==> n.open_question_ids@.len() == 0
            &&& !(e is UnderstandingCompleted || e is QuestionAnswered || e is Failed
                || e is Cancelled) ==> n.open_question_ids == row.open_question_ids
            &&& e matches RunEvent::PlanProposed { plan, revision, .. } ==> n.plan == Some(plan)
                && n.plan_revision == revision
            &&& e is PlanRejected ==> n.plan_revision == row.plan_revision + 1 && n.plan == row.plan
            &&& !(e is PlanProposed || e is PlanRejected) ==> n.plan == row.plan && n.plan_revision
                == row.plan_revision
            &&& e matches RunEvent::BudgetExhausted { dimension } ==> n.budget_exhausted == Some(
                dimension,
            )
            &&& !(e is BudgetExhausted) ==> n.budget_exhausted == row.budget_exhausted
            &&& e matches RunEvent::Integrated { artifacts, summary } ==> n.artifacts == artifacts
                && n.summary == Some(summary)
            &&& !(e is Integrated) ==> n.artifacts == row.artifacts
            &&& e matches RunEvent::Completed { summary, .. } ==> (summary@.len() > 0 ==> n.summary
                == Some(summary)) && (summary@.len() == 0 ==> n.summary == row.summary)
            &&& !(e is Integrated || e is Completed) ==> n.summary == row.summary
            &&& e matches RunEvent::Evaluated { evaluation_id, overall, verdict }
                ==> n.evaluation_id == Some(evaluation_id) && n.evaluation_overall == Some(overall)
                && n.evaluation_verdict == Some(verdict)
            &&& !(e is Evaluated) ==> n.evaluation_id == row.evaluation_id && n.evaluation_overall
                == row.evaluation_overall && n.evaluation_verdict == row.evaluation_verdict
            &&& e matches RunEvent::Failed { reason, class, message, .. } ==> n.failure_class
                == Some(class) && n.failure_message == message && (n.failure_reason matches Some(t)
                && t@ == reason.label())
            &&& !(e is Failed) ==> n.failure_class == row.failure_class && n.failure_message
                == row.failure_message && n.failure_reason == row.failure_reason
            &&& e matches RunEvent::Cancelled { by, reason } ==> n.cancelled_by == Some(by)
                && n.cancel_reason == reason
            &&& !(e is Cancelled) ==> n.cancelled_by == row.cancelled_by && n.cancel_reason
                == row.cancel_reason
        }),
{
    if let RunEvent::QuestionAnswered { question_id } = e {
        lemma_without(row.open_question_ids@, question_id);
        assert(without(row.open_question_ids@, question_id).contains(id) <==> id != question_id
            && row.open_question_ids@.contains(id));
    }
}

/// The list shows the first line of the goal, trimmed, and never more than its
/// width.
pub proof fn law_the_list_shows_the_goal(
    row: RunOverviewRow,
    run: RunId,
    e: RunEvent,
    m: EventMeta,
    new: Option<RunOverviewRow>,
)
    requires
        applied(Some(row), run, e, m, new),
        row.version < m.aggregate_version <= i64::MAX,
    ensures
        e matches RunEvent::Started { goal, .. } ==> new->0.goal_text == goal.text
            && new->0.goal_excerpt@.len() <= 160 && (super::headline(goal.text@).len() <= 160
            ==> new->0.goal_excerpt@ == super::headline(goal.text@)),
        !(e is Started) ==> new->0.goal_excerpt == row.goal_excerpt,
{
}

/// An account of numbers that a column cannot hold is refused, and no other event
/// is.
pub proof fn law_only_overflows_are_refused(row: RunOverviewRow, e: RunEvent, m: EventMeta)
    ensures
        accepts(None, e, m),
        m.aggregate_version <= i64::MAX && m.aggregate_version <= row.version ==> accepts(
            Some(row),
            e,
            m,
        ),
        !(e is UnderstandingCompleted || e is PlanProposed || e is PlanRejected
            || e is TaskTerminalNoted) ==> accepts(Some(row), e, m),
        e is PlanRejected && row.plan_revision < i32::MAX ==> accepts(Some(row), e, m),
        e is TaskTerminalNoted && row.tasks_succeeded < i32::MAX && row.tasks_failed < i32::MAX
            && row.tasks_cancelled < i32::MAX && row.tasks_skipped < i32::MAX ==> accepts(
            Some(row),
            e,
            m,
        ),
{
}

/// Usage is accepted exactly when every sum still fits its 64-bit column and the
/// cost can be added up.
pub proof fn law_sums_must_fit_their_columns(row: RunOverviewRow, e: RunEvent, m: EventMeta, u: Usage)
    requires
        row.version < m.aggregate_version <= i64::MAX,
        u.input_tokens <= i64::MAX,
        u.output_tokens <= i64::MAX,
        u.cache_read_tokens <= i64::MAX,
        u.cache_write_tokens <= i64::MAX,
        u.wall_ms <= i64::MAX,
        u.cost_usd is None,
        (e matches RunEvent::UnderstandingCompleted { usage, .. } && usage == u) || (
        e matches RunEvent::PlanProposed { usage, .. } && usage == u),
    ensures
        accepts(Some(row), e, m) ==> row.input_tokens + u.input_tokens
            <= 9_223_372_036_854_775_807 && row.output_tokens + u.output_tokens
            <= 9_223_372_036_854_775_807 && row.cache_read_tokens + u.cache_read_tokens
            <= 9_223_372_036_854_775_807 && row.cache_write_tokens + u.cache_write_tokens
            <= 9_223_372_036_854_775_807 && row.wall_ms + u.wall_ms <= 9_223_372_036_854_775_807,
        row.input_tokens + u.input_tokens <= 9_223_372_036_854_775_807 && row.output_tokens
            + u.output_tokens <= 9_223_372_036_854_775_807 && row.cache_read_tokens
            + u.cache_read_tokens <= 9_223_372_036_854_775_807 && row.cache_write_tokens
            + u.cache_write_tokens <= 9_223_372_036_854_775_807 && row.wall_ms + u.wall_ms
            <= 9_223_372_036_854_775_807 ==> accepts(Some(row), e, m),
{
}

} // verus!
