//! One row per task attempt, the source of the cost report.
//!
//! The row is opened when the attempt starts (route, worker, model) and closed
//! when it succeeds or fails (usage, cost).
use vstd::prelude::*;

use super::query::{AttemptState, CostLedgerRow, Usd};
use super::replay::{congruent, folded, in_order, lemma_rebuild, lemma_replay, versioned};
use super::{clamp_spec, position, version, UsageCols};
use crate::domain::{clone_text, AttemptId, FailureClass, Usage};
use crate::events::{EventMeta, TaskEvent};
use crate::text::same;

verus! {

/// Projection name and checkpoint key.
pub const NAME: &'static str = "cost_ledger";

/// Builds the cost ledger from the attempts of tasks.
#[derive(Debug, Clone, Copy, PartialEq, Eq, Structural)]
pub struct CostLedger;

/// The row already reflects this event or a later one.
pub open spec fn seen(r: CostLedgerRow, m: EventMeta) -> bool {
    r.version >= clamp_spec(m.aggregate_version)
}

/// The kind that a row shows: `unknown` where the task's creation is not known.
pub open spec fn shown_kind(kind: Option<String>) -> Seq<char> {
    match kind {
        Some(k) => k@,
        None => "unknown"@,
    }
}

/// The columns that a start sets are those of the event.
pub open spec fn opened(n: CostLedgerRow, e: TaskEvent, m: EventMeta, kind: Option<String>) -> bool
    recommends
        e is AttemptStarted,
{
    &&& n.attempt_id == e->AttemptStarted_attempt_id
    &&& n.run_id == m.run_id
    &&& n.task_id == m.aggregate_id
    &&& n.attempt_no == e->attempt_no
    &&& n.version == clamp_spec(m.aggregate_version)
    &&& n.task_kind@ == shown_kind(kind)
    &&& n.worker == e->AttemptStarted_route.worker.name
    &&& n.model_alias == e->AttemptStarted_route.model
    &&& n.effort == e->AttemptStarted_route.effort
    &&& n.status == AttemptState::Running
    &&& n.started_at == m.occurred_at
    &&& n.updated_at == m.occurred_at
    &&& n.last_position == clamp_spec(m.position)
}

/// The columns that a start leaves alone are those of `r`.
pub open spec fn kept(r: CostLedgerRow, n: CostLedgerRow) -> bool {
    &&& n.failure_class == r.failure_class
    &&& n.input_tokens == r.input_tokens
    &&& n.output_tokens == r.output_tokens
    &&& n.cache_read_tokens == r.cache_read_tokens
    &&& n.cache_write_tokens == r.cache_write_tokens
    &&& n.cost_usd == r.cost_usd
    &&& n.wall_ms == r.wall_ms
    &&& n.ended_at == r.ended_at
}

/// Nothing is spent and nothing is closed yet.
pub open spec fn untouched(n: CostLedgerRow) -> bool {
    &&& n.failure_class is None
    &&& n.input_tokens == 0
    &&& n.output_tokens == 0
    &&& n.cache_read_tokens == 0
    &&& n.cache_write_tokens == 0
    &&& n.cost_usd == Usd(None)
    &&& n.wall_ms == 0
    &&& n.ended_at is None
}

/// The row with the attempt's final usage.
pub open spec fn closed(
    r: CostLedgerRow,
    m: EventMeta,
    usage: Usage,
    status: AttemptState,
    failure_class: Option<FailureClass>,
) -> CostLedgerRow {
    let u = UsageCols::of(usage);
    CostLedgerRow {
        version: clamp_spec(m.aggregate_version),
        last_position: clamp_spec(m.position),
        updated_at: m.occurred_at,
        ended_at: Some(m.occurred_at),
        status,
        failure_class,
        input_tokens: u.input,
        output_tokens: u.output,
        cache_read_tokens: u.cache_read,
        cache_write_tokens: u.cache_write,
        wall_ms: u.wall_ms,
        cost_usd: Usd(u.cost),
        ..r
    }
}

/// The attempt that an event of the ledger belongs to.
pub open spec fn attempt_key(e: TaskEvent) -> Option<u128> {
    match e {
        TaskEvent::AttemptStarted { attempt_id, .. } => Some(attempt_id),
        TaskEvent::AttemptSucceeded { attempt_id, .. } => Some(attempt_id),
        TaskEvent::AttemptFailed { attempt_id, .. } => Some(attempt_id),
        _ => None,
    }
}

/// What the table holds for the attempt after the event; `kind` is the task's
/// kind where its creation is known.
pub open spec fn applied(
    row: Option<CostLedgerRow>,
    e: TaskEvent,
    m: EventMeta,
    kind: Option<String>,
    new: Option<CostLedgerRow>,
) -> bool {
    match e {
        TaskEvent::AttemptStarted { .. } => match row {
            Some(r) => if seen(r, m) {
                new == row
            } else {
                new matches Some(n) && opened(n, e, m, kind) && kept(r, n)
            },
            None => new matches Some(n) && opened(n, e, m, kind) && untouched(n),
        },
        TaskEvent::AttemptSucceeded { usage, .. } => match row {
            Some(r) => if seen(r, m) {
                new == row
            } else {
                new == Some(closed(r, m, usage, AttemptState::Succeeded, None))
            },
            None => new is None,
        },
        TaskEvent::AttemptFailed { class, usage, .. } => match row {
            Some(r) => if seen(r, m) {
                new == row
            } else {
                new == Some(closed(r, m, usage, AttemptState::Failed, Some(class)))
            },
            None => new is None,
        },
        _ => new == row,
    }
}

/// Writes the attempt's final usage.
fn close(
    row: Option<CostLedgerRow>,
    meta: &EventMeta,
    usage: &Usage,
    status: AttemptState,
    failure_class: Option<FailureClass>,
) -> (r: Option<CostLedgerRow>)
    ensures
        match row {
            Some(old_row) => r == (if seen(old_row, *meta) {
                row
            } else {
                Some(closed(old_row, *meta, *usage, status, failure_class))
            }),
            None => r is None,
        },
{
    match row {
        Some(row) => {
            if row.version >= version(meta) {
                return Some(row);
            }
            let u = UsageCols::new(usage);
            let mut r = row;
            r.version = version(meta);
            r.last_position = position(meta);
            r.updated_at = meta.occurred_at;
            r.ended_at = Some(meta.occurred_at);
            r.status = status;
            r.failure_class = failure_class;
            r.input_tokens = u.input;
            r.output_tokens = u.output;
            r.cache_read_tokens = u.cache_read;
            r.cache_write_tokens = u.cache_write;
            r.wall_ms = u.wall_ms;
            r.cost_usd = Usd(u.cost);
            Some(r)
        },
        None => None,
    }
}

impl CostLedger {
    /// A new projection.
    pub fn new() -> (r: CostLedger)
        ensures
            r == CostLedger,
    {
        CostLedger
    }

    /// Stable name.
    pub fn name(&self) -> (r: &'static str)
        ensures
            r@ == NAME@,
    {
        NAME
    }

    /// Whether the projection cares about `event_type`.
    pub fn handles(&self, event_type: &str) -> (b: bool)
        ensures
            b == (event_type@ == "task.attempt_started"@ || event_type@ == "task.attempt_succeeded"@
                || event_type@ == "task.attempt_failed"@),
    {
        same(event_type, "task.attempt_started") || same(event_type, "task.attempt_succeeded")
            || same(event_type, "task.attempt_failed")
    }

    /// Folds one event into the row of its attempt.
    pub fn handle(
        &self,
        row: Option<CostLedgerRow>,
        event: &TaskEvent,
        meta: &EventMeta,
        kind: Option<String>,
    ) -> (r: Option<CostLedgerRow>)
        ensures
            applied(row, *event, *meta, kind, r),
    {
        match event {
            TaskEvent::AttemptStarted { attempt_id, attempt_no, route, .. } => {
                let task_kind = match kind {
                    Some(k) => k,
                    None => "unknown".to_owned(),
                };
                match row {
                    Some(row) => {
                        if row.version >= version(meta) {
                            return Some(row);
                        }
                        let mut r = row;
                        r.attempt_id = *attempt_id;
                        r.run_id = meta.run_id;
                        r.task_id = meta.aggregate_id;
                        r.attempt_no = *attempt_no as i32;
                        r.version = version(meta);
                        r.task_kind = task_kind;
                        r.worker = route.worker.name.clone();
                        r.model_alias = route.model.clone();
                        r.effort = clone_text(&route.effort);
                        r.status = AttemptState::Running;
                        r.started_at = meta.occurred_at;
                        r.updated_at = meta.occurred_at;
                        r.last_position = position(meta);
                        Some(r)
                    },
                    None => Some(
                        CostLedgerRow {
                            attempt_id: *attempt_id,
                            run_id: meta.run_id,
                            task_id: meta.aggregate_id,
                            attempt_no: *attempt_no as i32,
                            version: version(meta),
                            task_kind,
                            worker: route.worker.name.clone(),
                            model_alias: route.model.clone(),
                            effort: clone_text(&route.effort),
                            status: AttemptState::Running,
                            failure_class: None,
                            input_tokens: 0,
                            output_tokens: 0,
                            cache_read_tokens: 0,
                            cache_write_tokens: 0,
                            cost_usd: Usd(None),
                            wall_ms: 0,
                            started_at: meta.occurred_at,
                            ended_at: None,
                            updated_at: meta.occurred_at,
                            last_position: position(meta),
                        },
                    ),
                }
            },
            TaskEvent::AttemptSucceeded { usage, .. } => close(
                row,
                meta,
                usage,
                AttemptState::Succeeded,
                None,
            ),
            TaskEvent::AttemptFailed { class, usage, .. } => close(
                row,
                meta,
                usage,
                AttemptState::Failed,
                Some(*class),
            ),
            _ => row,
        }
    }
}

/// Applying the same event twice is applying it once.
pub proof fn law_replay_changes_nothing(
    row: Option<CostLedgerRow>,
    e: TaskEvent,
    m: EventMeta,
    kind: Option<String>,
    once: Option<CostLedgerRow>,
    twice: Option<CostLedgerRow>,
)
    requires
        applied(row, e, m, kind, once),
        applied(once, e, m, kind, twice),
    ensures
        twice == once,
{
}

/// An event at or below the version of the row changes nothing, whatever it is.
pub proof fn law_older_events_change_nothing(
    row: CostLedgerRow,
    e: TaskEvent,
    m: EventMeta,
    kind: Option<String>,
    new: Option<CostLedgerRow>,
)
    requires
        applied(Some(row), e, m, kind, new),
        clamp_spec(m.aggregate_version) <= row.version,
    ensures
        new == Some(row),
{
}

/// How an event changes the row of `attempt`.
pub open spec fn fold_step(attempt: AttemptId) -> spec_fn(
    Option<CostLedgerRow>,
    (TaskEvent, EventMeta),
    Option<CostLedgerRow>,
) -> bool {
    |row: Option<CostLedgerRow>, e: (TaskEvent, EventMeta), new: Option<CostLedgerRow>| 
        attempt_key(e.0) == Some(attempt) && exists|kind: Option<String>| #[trigger] applied(row, e.0, e.1, kind, new)
}

/// Folding a batch of events in their order once more leaves the row as it was,
/// wherever the batch began.
pub proof fn law_replaying_a_batch_changes_nothing(
    attempt: AttemptId,
    rows: Seq<Option<CostLedgerRow>>,
    events: Seq<(TaskEvent, EventMeta)>,
    again: Seq<Option<CostLedgerRow>>,
)
    requires
        forall|i: int, j: int|
            0 <= i <= j < events.len() ==> (#[trigger] events[i]).1.aggregate_version <= (
            #[trigger] events[j]).1.aggregate_version,
        folded(fold_step(attempt), rows, events),
        folded(fold_step(attempt), again, events),
        again[0] == rows.last(),
    ensures
        forall|i: int| 0 <= i < again.len() ==> #[trigger] again[i] == rows.last(),
{
    let row_version = |r: CostLedgerRow| r.version as int;
    let version = |e: (TaskEvent, EventMeta)| clamp_spec(e.1.aggregate_version) as int;
    assert(in_order(events, version));
    assert(versioned(fold_step(attempt), row_version, version));
    assert forall|i: int| 0 <= i < again.len() implies #[trigger] again[i] == rows.last() by {
        lemma_replay(fold_step(attempt), row_version, version, rows, events, again, i);
    }
}

/// How an event changes the row of `attempt`, given the task's kind.
pub open spec fn kinded_step(attempt: AttemptId) -> spec_fn(
    Option<CostLedgerRow>,
    (TaskEvent, EventMeta, Option<String>),
    Option<CostLedgerRow>,
) -> bool {
    |
        row: Option<CostLedgerRow>,
        e: (TaskEvent, EventMeta, Option<String>),
        new: Option<CostLedgerRow>,
    | attempt_key(e.0) == Some(attempt) && applied(row, e.0, e.1, e.2, new)
}

/// The two rows show the same.
pub open spec fn same_row(a: Option<CostLedgerRow>, b: Option<CostLedgerRow>) -> bool {
    match (a, b) {
        (Some(x), Some(y)) => x.task_kind@ == y.task_kind@ && y == (CostLedgerRow {
            task_kind: y.task_kind,
            ..x
        }),
        (None, None) => true,
        _ => false,
    }
}

/// A rebuild ends with the row that was there before: folding the same events from
/// an empty table a second time gives the same row after each of them.
pub proof fn law_a_rebuild_gives_the_same_row(
    attempt: AttemptId,
    rows: Seq<Option<CostLedgerRow>>,
    again: Seq<Option<CostLedgerRow>>,
    events: Seq<(TaskEvent, EventMeta, Option<String>)>,
)
    requires
        folded(kinded_step(attempt), rows, events),
        folded(kinded_step(attempt), again, events),
        rows[0] is None,
        again[0] is None,
    ensures
        forall|i: int| 0 <= i < rows.len() ==> same_row(#[trigger] rows[i], again[i]),
{
    let same = |a: Option<CostLedgerRow>, b: Option<CostLedgerRow>| same_row(a, b);
    assert(congruent(kinded_step(attempt), same));
    assert forall|i: int| 0 <= i < rows.len() implies same_row(#[trigger] rows[i], again[i]) by {
        lemma_rebuild(kinded_step(attempt), same, rows, again, events, i);
    }
}

/// A started attempt opens its row: running, for its task and run, on its worker
/// and model, with nothing spent.
pub proof fn law_a_start_opens_the_row(
    e: TaskEvent,
    m: EventMeta,
    kind: Option<String>,
    new: Option<CostLedgerRow>,
)
    requires
        applied(None, e, m, kind, new),
    ensures
        new is Some <==> e is AttemptStarted,
        e matches TaskEvent::AttemptStarted { attempt_id, attempt_no, route, .. } ==> {
            let n = new->0;
            &&& n.attempt_id == attempt_id && n.attempt_no == attempt_no
            &&& n.run_id == m.run_id && n.task_id == m.aggregate_id
            &&& n.worker == route.worker.name && n.model_alias == route.model && n.effort
                == route.effort
            &&& n.status == AttemptState::Running
            &&& n.input_tokens == 0 && n.output_tokens == 0 && n.cache_read_tokens == 0
                && n.cache_write_tokens == 0 && n.wall_ms == 0 && n.cost_usd == Usd(None)
            &&& n.failure_class is None && n.ended_at is None && n.started_at == m.occurred_at
            &&& kind matches Some(k) ==> n.task_kind@ == k@
            &&& kind is None ==> n.task_kind@ == "unknown"@
        },
{
}

/// The end of an attempt writes what it used in all, number by number, and how it
/// ended; a failure has its class, a success has none. Who ran what stays.
pub proof fn law_an_end_closes_the_row(
    row: CostLedgerRow,
    e: TaskEvent,
    m: EventMeta,
    kind: Option<String>,
    new: Option<CostLedgerRow>,
    u: Usage,
)
    requires
        applied(Some(row), e, m, kind, new),
        row.version < m.aggregate_version <= i64::MAX,
        m.position <= i64::MAX,
        (e matches TaskEvent::AttemptSucceeded { usage, .. } && usage == u) || (
        e matches TaskEvent::AttemptFailed { usage, .. } && usage == u),
        u.input_tokens <= i64::MAX,
        u.output_tokens <= i64::MAX,
        u.cache_read_tokens <= i64::MAX,
        u.cache_write_tokens <= i64::MAX,
        u.wall_ms <= i64::MAX,
    ensures
        ({
            let n = new->0;
            &&& new is Some
            &&& n.version == m.aggregate_version && n.last_position == m.position && n.updated_at
                == m.occurred_at
            &&& n.input_tokens == u.input_tokens
            &&& n.output_tokens == u.output_tokens
            &&& n.cache_read_tokens == u.cache_read_tokens
            &&& n.cache_write_tokens == u.cache_write_tokens
            &&& n.wall_ms == u.wall_ms
            &&& n.cost_usd == Usd(u.cost_usd)
            &&& n.ended_at == Some(m.occurred_at)
            &&& e is AttemptSucceeded ==> n.status == AttemptState::Succeeded
                && n.failure_class is None
            &&& e matches TaskEvent::AttemptFailed { class, .. } ==> n.status
                == AttemptState::Failed && n.failure_class == Some(class)
            &&& n.attempt_id == row.attempt_id && n.task_id == row.task_id && n.run_id == row.run_id
                && n.worker == row.worker && n.model_alias == row.model_alias && n.effort
                == row.effort && n.task_kind == row.task_kind && n.attempt_no == row.attempt_no
                && n.started_at == row.started_at
        }),
{
}

/// The ledger knows starts and ends of attempts, and nothing else changes it.
pub proof fn law_other_events_cost_nothing(
    row: Option<CostLedgerRow>,
    e: TaskEvent,
    m: EventMeta,
    kind: Option<String>,
    new: Option<CostLedgerRow>,
)
    requires
        applied(row, e, m, kind, new),
        !(e is AttemptStarted),
        !(e is AttemptSucceeded),
        !(e is AttemptFailed),
    ensures
        new == row,
        attempt_key(e) is None,
{
}

/// An event of the ledger belongs to the attempt that it names.
pub proof fn law_an_event_names_its_attempt(e: TaskEvent)
    ensures
        e matches TaskEvent::AttemptStarted { attempt_id, .. } ==> attempt_key(e) == Some(
            attempt_id,
        ),
        e matches TaskEvent::AttemptSucceeded { attempt_id, .. } ==> attempt_key(e) == Some(
            attempt_id,
        ),
        e matches TaskEvent::AttemptFailed { attempt_id, .. } ==> attempt_key(e) == Some(
            attempt_id,
        ),
{
}

} // verus!
