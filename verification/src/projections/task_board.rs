//! The task board and task detail read model.
//!
//! Source: the events of the task. The row carries the task's aggregate version
//! and every change is guarded by it. The usage columns are always the sums over
//! the attempts of the row.
use vstd::prelude::*;

use super::query::{AttemptRow, AttemptState, TaskBoardRow, Usd};
use super::replay::{congruent, folded, in_order, lemma_rebuild, lemma_replay, versioned};
use super::{clamp_spec, position, version, ProjectionError};
use crate::domain::{
    add_costs, cost_sum, ArtifactRef, AttemptFailure, AttemptId, FailureClass, Micros, QuestionId,
    TaskId, TaskStatus, Usage,
};
use crate::events::{EventMeta, TaskEvent};
use crate::money::Amount;
use crate::text::has_prefix;

verus! {

/// Projection name and checkpoint key.
pub const NAME: &'static str = "task_board";

/// Builds the task board from the events of tasks.
#[derive(Debug, Clone, Copy, PartialEq, Eq, Structural)]
pub struct TaskBoard;

/// The fields of an attempt that an event changes; `None` leaves a field alone.
pub struct AttemptPatch {
    pub status: Option<AttemptState>,
    pub ended_at: Option<Micros>,
    pub summary: Option<String>,
    pub usage: Option<Usage>,
    pub failure: Option<AttemptFailure>,
    pub last_log_seq: Option<u64>,
    pub pending_question: Option<Option<QuestionId>>,
}

/// One change to an attempt and to the task's own columns.
pub struct AttemptUpdate {
    pub attempt_id: AttemptId,
    pub patch: AttemptPatch,
    pub status: Option<TaskStatus>,
    /// The task ends with the event.
    pub ended: bool,
    pub summary: Option<String>,
    pub failure: Option<AttemptFailure>,
    pub artifacts: Option<Vec<ArtifactRef>>,
    pub awaiting: Option<Option<QuestionId>>,
}

// ---------------------------------------------------------------------------
// Model
// ---------------------------------------------------------------------------
/// `new`, or `old` where there is nothing new.
pub open spec fn or_old<T>(new: Option<T>, old: T) -> T {
    match new {
        Some(v) => v,
        None => old,
    }
}

/// `new`, or `old` where there is nothing new.
pub open spec fn or_known<T>(new: Option<T>, old: Option<T>) -> Option<T> {
    match new {
        Some(v) => Some(v),
        None => old,
    }
}

/// The attempt after the patch.
pub open spec fn patched(a: AttemptRow, p: AttemptPatch) -> AttemptRow {
    AttemptRow {
        status: or_old(p.status, a.status),
        ended_at: or_known(p.ended_at, a.ended_at),
        summary: or_known(p.summary, a.summary),
        usage: or_old(p.usage, a.usage),
        failure: or_known(p.failure, a.failure),
        last_log_seq: or_old(p.last_log_seq, a.last_log_seq),
        pending_question: or_old(p.pending_question, a.pending_question),
        ..a
    }
}

/// The attempts with the one called `id` patched, in the same order.
pub open spec fn patch_all(s: Seq<AttemptRow>, id: AttemptId, p: AttemptPatch) -> Seq<AttemptRow> {
    Seq::new(
        s.len(),
        |i: int|
            if s[i].id == id {
                patched(s[i], p)
            } else {
                s[i]
            },
    )
}

/// The usage of the first attempt called `id`, or nothing.
pub open spec fn usage_of(s: Seq<AttemptRow>, id: AttemptId) -> Usage
    decreases s.len(),
{
    if s.len() == 0 {
        Usage::zero_spec()
    } else if s[0].id == id {
        s[0].usage
    } else {
        usage_of(s.subrange(1, s.len() as int), id)
    }
}

pub open spec fn open_attempt(a: AttemptRow) -> bool {
    a.status == AttemptState::Running || a.status == AttemptState::AwaitingInput
}

/// Index of the open attempt with the highest number (the first of them), or
/// the length where none is open.
pub open spec fn is_active_index(s: Seq<AttemptRow>, k: int) -> bool {
    if exists|i: int| 0 <= i < s.len() && open_attempt(#[trigger] s[i]) {
        &&& 0 <= k < s.len()
        &&& open_attempt(s[k])
        &&& forall|i: int| 0 <= i < s.len() && open_attempt(#[trigger] s[i]) ==> s[i].no <= s[k].no
        &&& forall|i: int| 0 <= i < k && open_attempt(#[trigger] s[i]) ==> s[i].no < s[k].no
    } else {
        k == s.len()
    }
}

/// Sum of one usage number over the attempts.
pub open spec fn total(s: Seq<AttemptRow>, f: spec_fn(Usage) -> int) -> int
    decreases s.len(),
{
    if s.len() == 0 {
        0
    } else {
        total(s.drop_last(), f) + f(s.last().usage)
    }
}

/// The known costs of the attempts added up: unknown where none is known; the
/// outer `None` is an overflow.
pub open spec fn total_cost(s: Seq<AttemptRow>) -> Option<Option<Amount>>
    decreases s.len(),
{
    if s.len() == 0 {
        Some(None)
    } else {
        match total_cost(s.drop_last()) {
            Some(c) => cost_sum(c, s.last().usage.cost_usd),
            None => None,
        }
    }
}

pub open spec fn input_of() -> spec_fn(Usage) -> int {
    |u: Usage| u.input_tokens as int
}

pub open spec fn output_of() -> spec_fn(Usage) -> int {
    |u: Usage| u.output_tokens as int
}

pub open spec fn cache_read_of() -> spec_fn(Usage) -> int {
    |u: Usage| u.cache_read_tokens as int
}

pub open spec fn cache_write_of() -> spec_fn(Usage) -> int {
    |u: Usage| u.cache_write_tokens as int
}

pub open spec fn wall_of() -> spec_fn(Usage) -> int {
    |u: Usage| u.wall_ms as int
}

/// The columns can hold the sums over the attempts.
pub open spec fn totals_fit(s: Seq<AttemptRow>) -> bool {
    &&& total(s, input_of()) <= i64::MAX
    &&& total(s, output_of()) <= i64::MAX
    &&& total(s, cache_read_of()) <= i64::MAX
    &&& total(s, cache_write_of()) <= i64::MAX
    &&& total(s, wall_of()) <= i64::MAX
    &&& total_cost(s) is Some
}

/// The usage columns are the sums over the attempts.
pub open spec fn usage_consistent(r: TaskBoardRow) -> bool {
    &&& r.input_tokens == total(r.attempts@, input_of())
    &&& r.output_tokens == total(r.attempts@, output_of())
    &&& r.cache_read_tokens == total(r.attempts@, cache_read_of())
    &&& r.cache_write_tokens == total(r.attempts@, cache_write_of())
    &&& r.wall_ms == total(r.attempts@, wall_of())
    &&& total_cost(r.attempts@) == Some(r.cost_usd.0)
}

/// The amounts in the row are well formed and its usage columns consistent.
pub open spec fn wf(r: TaskBoardRow) -> bool {
    &&& usage_consistent(r)
    &&& r.cost_usd.wf()
    &&& forall|i: int| 0 <= i < r.attempts@.len() ==> (#[trigger] r.attempts@[i]).usage.wf()
}

/// The row with the version, position and time of the event.
pub open spec fn stamped(r: TaskBoardRow, m: EventMeta) -> TaskBoardRow {
    TaskBoardRow {
        version: clamp_spec(m.aggregate_version),
        last_position: clamp_spec(m.position),
        updated_at: m.occurred_at,
        ..r
    }
}

/// The row with its attempts and usage columns taken from `n`.
pub open spec fn with_attempts(r: TaskBoardRow, n: TaskBoardRow) -> TaskBoardRow {
    TaskBoardRow {
        attempts: n.attempts,
        cost_usd: n.cost_usd,
        input_tokens: n.input_tokens,
        output_tokens: n.output_tokens,
        cache_read_tokens: n.cache_read_tokens,
        cache_write_tokens: n.cache_write_tokens,
        wall_ms: n.wall_ms,
        ..r
    }
}

/// `n` is `r` after the update; its usage columns follow the attempts.
pub open spec fn updated(
    r: TaskBoardRow,
    m: EventMeta,
    u: AttemptUpdate,
    n: TaskBoardRow,
) -> bool {
    &&& n.attempts@ == patch_all(r.attempts@, u.attempt_id, u.patch)
    &&& n.artifacts@ == (match u.artifacts {
        Some(more) => r.artifacts@ + more@,
        None => r.artifacts@,
    })
    &&& n == (TaskBoardRow {
        status: or_old(u.status, r.status),
        ended_at: if u.ended {
            Some(m.occurred_at)
        } else {
            r.ended_at
        },
        summary: or_known(u.summary, r.summary),
        failure_class: match u.failure {
            Some(f) => Some(f.class),
            None => r.failure_class,
        },
        failure_message: match u.failure {
            Some(f) => Some(f.message),
            None => r.failure_message,
        },
        artifacts: n.artifacts,
        awaiting_question_id: or_old(u.awaiting, r.awaiting_question_id),
        ..with_attempts(stamped(r, m), n)
    })
}

/// A patch that changes nothing.
pub open spec fn no_patch() -> AttemptPatch {
    AttemptPatch {
        status: None,
        ended_at: None,
        summary: None,
        usage: None,
        failure: None,
        last_log_seq: None,
        pending_question: None,
    }
}

/// An update that changes no column of the task.
pub open spec fn plain_update(id: AttemptId, patch: AttemptPatch) -> AttemptUpdate {
    AttemptUpdate {
        attempt_id: id,
        patch,
        status: None,
        ended: false,
        summary: None,
        failure: None,
        artifacts: None,
        awaiting: None,
    }
}

/// The update that `Cancelled` makes to the attempt at index `k` of the row.
pub open spec fn cancel_update(
    r: TaskBoardRow,
    reason: String,
    m: EventMeta,
    k: int,
) -> AttemptUpdate {
    AttemptUpdate {
        status: Some(TaskStatus::Cancelled),
        ended: true,
        failure: Some(AttemptFailure { class: FailureClass::Cancelled, message: reason }),
        awaiting: Some(None),
        ..plain_update(
            if k < r.attempts@.len() {
                r.attempts@[k].id
            } else {
                0
            },
            AttemptPatch {
                status: Some(AttemptState::Failed),
                ended_at: Some(m.occurred_at),
                pending_question: Some(None),
                failure: Some(AttemptFailure { class: FailureClass::Cancelled, message: reason }),
                ..no_patch()
            },
        )
    }
}

/// The update that an attempt's event makes; meaningless for other events.
pub open spec fn update_of(r: TaskBoardRow, e: TaskEvent, m: EventMeta) -> AttemptUpdate {
    match e {
        TaskEvent::Progressed { attempt_id, summary, usage_delta, log_seq } => AttemptUpdate {
            summary: Some(summary),
            ..plain_update(
                attempt_id,
                AttemptPatch {
                    summary: Some(summary),
                    last_log_seq: Some(log_seq),
                    usage: usage_of(r.attempts@, attempt_id).plus_spec(usage_delta),
                    ..no_patch()
                },
            )
        },
        TaskEvent::InputRequested { attempt_id, question_id } => AttemptUpdate {
            status: Some(TaskStatus::AwaitingInput),
            awaiting: Some(Some(question_id)),
            ..plain_update(
                attempt_id,
                AttemptPatch {
                    status: Some(AttemptState::AwaitingInput),
                    pending_question: Some(Some(question_id)),
                    ..no_patch()
                },
            )
        },
        TaskEvent::InputProvided { attempt_id } => AttemptUpdate {
            status: Some(TaskStatus::Running),
            awaiting: Some(None),
            ..plain_update(
                attempt_id,
                AttemptPatch {
                    status: Some(AttemptState::Running),
                    pending_question: Some(None),
                    ..no_patch()
                },
            )
        },
        TaskEvent::AttemptSucceeded { attempt_id, artifacts, summary, usage } => AttemptUpdate {
            status: Some(TaskStatus::Succeeded),
            summary: Some(summary),
            ended: true,
            artifacts: Some(artifacts),
            awaiting: Some(None),
            ..plain_update(
                attempt_id,
                AttemptPatch {
                    status: Some(AttemptState::Succeeded),
                    ended_at: Some(m.occurred_at),
                    summary: Some(summary),
                    pending_question: Some(None),
                    usage: Some(usage),
                    ..no_patch()
                },
            )
        },
        TaskEvent::AttemptFailed { attempt_id, class, message, usage } => AttemptUpdate {
            status: Some(TaskStatus::Failed),
            failure: Some(AttemptFailure { class, message }),
            ended: true,
            awaiting: Some(None),
            ..plain_update(
                attempt_id,
                AttemptPatch {
                    status: Some(AttemptState::Failed),
                    ended_at: Some(m.occurred_at),
                    pending_question: Some(None),
                    usage: Some(usage),
                    failure: Some(AttemptFailure { class, message }),
                    ..no_patch()
                },
            )
        },
        _ => plain_update(0, no_patch()),
    }
}

/// The attempt that `AttemptStarted` appends.
pub open spec fn started_attempt(e: TaskEvent, m: EventMeta) -> AttemptRow
    recommends
        e is AttemptStarted,
{
    AttemptRow {
        id: e->AttemptStarted_attempt_id,
        no: e->attempt_no,
        route: e->AttemptStarted_route,
        status: AttemptState::Running,
        workspace: e->workspace,
        worker_session_id: e->worker_session_id,
        started_at: m.occurred_at,
        ended_at: None,
        usage: Usage::zero_spec(),
        summary: None,
        failure: None,
        last_log_seq: 0,
        pending_question: None,
    }
}

/// The columns that `Created` sets, on top of those of `r`.
pub open spec fn created(r: TaskBoardRow, e: TaskEvent, m: EventMeta) -> TaskBoardRow
    recommends
        e is Created,
{
    TaskBoardRow {
        run_id: e->run_id,
        kind: e->kind,
        status: TaskStatus::Pending,
        spec: e->spec,
        budget: e->budget,
        created_at: m.occurred_at,
        ..stamped(r, m)
    }
}

/// Nothing is filled in but what `Created` sets.
pub open spec fn fresh(r: TaskBoardRow, task: TaskId, seq: i32) -> bool {
    &&& r.task_id == task
    &&& r.seq == seq
    &&& r.route is None
    &&& r.selection is None
    &&& r.attempts@.len() == 0
    &&& r.attempt_count == 0
    &&& r.artifacts@.len() == 0
    &&& r.summary is None
    &&& r.failure_class is None
    &&& r.failure_message is None
    &&& r.awaiting_question_id is None
    &&& r.started_at is None
    &&& r.ended_at is None
}

/// `n` is the row `r` after the event `e` (which is newer than the row).
pub open spec fn step(r: TaskBoardRow, e: TaskEvent, m: EventMeta, n: TaskBoardRow) -> bool {
    match e {
        TaskEvent::Created { .. } => n == created(r, e, m),
        TaskEvent::Routed { route, selection } => n == (TaskBoardRow {
            status: TaskStatus::Routed,
            route: Some(route),
            selection: Some(selection),
            ..stamped(r, m)
        }),
        TaskEvent::AttemptStarted { route, .. } => {
            &&& n.attempts@ == r.attempts@.push(started_attempt(e, m))
            &&& n == (TaskBoardRow {
                status: TaskStatus::Running,
                attempt_count: (r.attempt_count + 1) as i32,
                started_at: or_known(r.started_at, Some(m.occurred_at)),
                ended_at: None,
                awaiting_question_id: None,
                route: Some(route),
                ..with_attempts(stamped(r, m), n)
            })
        },
        TaskEvent::Retried => n == (TaskBoardRow { status: TaskStatus::Routed, ..stamped(r, m) }),
        TaskEvent::Cancelled { reason } => exists|k: int|
            is_active_index(r.attempts@, k) && #[trigger] updated(
                r,
                m,
                cancel_update(r, reason, m, k),
                n,
            ),
        TaskEvent::Skipped { reason } => n == (TaskBoardRow {
            status: TaskStatus::Skipped,
            failure_message: Some(reason),
            ended_at: Some(m.occurred_at),
            ..stamped(r, m)
        }),
        _ => updated(r, m, update_of(r, e, m), n),
    }
}

/// The attempts that the row holds after the event.
pub open spec fn attempts_after(r: TaskBoardRow, e: TaskEvent, m: EventMeta) -> Seq<AttemptRow> {
    match e {
        TaskEvent::AttemptStarted { .. } => r.attempts@.push(started_attempt(e, m)),
        TaskEvent::Progressed { .. }
        | TaskEvent::AttemptSucceeded { .. }
        | TaskEvent::AttemptFailed { .. } => patch_all(
            r.attempts@,
            update_of(r, e, m).attempt_id,
            update_of(r, e, m).patch,
        ),
        _ => r.attempts@,
    }
}

/// The numbers of the event stay in their columns' range.
pub open spec fn in_range(r: TaskBoardRow, e: TaskEvent, m: EventMeta) -> bool {
    &&& e is AttemptStarted ==> r.attempt_count < i32::MAX
    &&& e is Progressed ==> usage_of(r.attempts@, e->Progressed_attempt_id).plus_spec(
        e->usage_delta,
    ) is Some
    &&& totals_fit(attempts_after(r, e, m))
}

/// The row already reflects this event or a later one.
pub open spec fn seen(r: TaskBoardRow, m: EventMeta) -> bool {
    r.version >= clamp_spec(m.aggregate_version)
}

/// What the table holds for `task` after the event; `seq` tasks of the run were
/// there before it.
pub open spec fn applied(
    row: Option<TaskBoardRow>,
    task: TaskId,
    seq: i32,
    e: TaskEvent,
    m: EventMeta,
    new: Option<TaskBoardRow>,
) -> bool {
    match row {
        Some(r) => if seen(r, m) {
            new == row
        } else {
            new matches Some(n) && step(r, e, m, n)
        },
        None => match e {
            TaskEvent::Created { .. } => new matches Some(n) && fresh(n, task, seq) && step(
                n,
                e,
                m,
                n,
            ),
            _ => new is None,
        },
    }
}

/// The row can take the event.
pub open spec fn accepts(row: Option<TaskBoardRow>, e: TaskEvent, m: EventMeta) -> bool {
    row matches Some(r) ==> (seen(r, m) || in_range(r, e, m))
}

// ---------------------------------------------------------------------------
// Projection
// ---------------------------------------------------------------------------
fn stamp(row: TaskBoardRow, meta: &EventMeta) -> (r: TaskBoardRow)
    ensures
        r == stamped(row, *meta),
{
    let mut r = row;
    r.version = version(meta);
    r.last_position = position(meta);
    r.updated_at = meta.occurred_at;
    r
}

fn empty_patch() -> (p: AttemptPatch)
    ensures
        p == no_patch(),
{
    AttemptPatch {
        status: None,
        ended_at: None,
        summary: None,
        usage: None,
        failure: None,
        last_log_seq: None,
        pending_question: None,
    }
}

fn apply_patch(attempt: AttemptRow, p: &AttemptPatch) -> (r: AttemptRow)
    ensures
        r == patched(attempt, *p),
{
    let mut a = attempt;
    if let Some(status) = p.status {
        a.status = status;
    }
    if let Some(at) = p.ended_at {
        a.ended_at = Some(at);
    }
    if let Some(summary) = &p.summary {
        a.summary = Some(summary.clone());
    }
    if let Some(usage) = p.usage {
        a.usage = usage;
    }
    if let Some(failure) = &p.failure {
        a.failure = Some(failure.clone());
    }
    if let Some(seq) = p.last_log_seq {
        a.last_log_seq = seq;
    }
    if let Some(question) = p.pending_question {
        a.pending_question = question;
    }
    a
}

/// Patches every attempt called `id`, keeping the order.
fn patch_attempts(attempts: Vec<AttemptRow>, id: AttemptId, p: &AttemptPatch) -> (r: Vec<AttemptRow>)
    ensures
        r@ == patch_all(attempts@, id, *p),
{
    let ghost before = attempts@;
    let n: usize = attempts.len();
    let mut rest = attempts;
    let mut out: Vec<AttemptRow> = Vec::new();
    let mut i: usize = 0;
    while i < n
        invariant
            i <= n,
            n == before.len(),
            rest@ == before.subrange(i as int, n as int),
            out@ == patch_all(before, id, *p).subrange(0, i as int),
        decreases n - i,
    {
        let a = rest.remove(0);
        assert(a == before[i as int]);
        let b = if a.id == id {
            apply_patch(a, p)
        } else {
            a
        };
        out.push(b);
        i = i + 1;
        assert(rest@ =~= before.subrange(i as int, n as int));
        assert(out@ =~= patch_all(before, id, *p).subrange(0, i as int));
    }
    assert(patch_all(before, id, *p).subrange(0, n as int) =~= patch_all(before, id, *p));
    out
}

/// Usage of the attempt called `id`, nothing where there is none.
fn attempt_usage(attempts: &Vec<AttemptRow>, id: AttemptId) -> (u: Usage)
    requires
        forall|i: int| 0 <= i < attempts@.len() ==> (#[trigger] attempts@[i]).usage.wf(),
    ensures
        u == usage_of(attempts@, id),
        u.wf(),
{
    let mut i: usize = 0;
    assert(attempts@.subrange(0, attempts@.len() as int) =~= attempts@);
    while i < attempts.len()
        invariant
            i <= attempts@.len(),
            usage_of(attempts@, id) == usage_of(
                attempts@.subrange(i as int, attempts@.len() as int),
                id,
            ),
            forall|i: int| 0 <= i < attempts@.len() ==> (#[trigger] attempts@[i]).usage.wf(),
        decreases attempts@.len() - i,
    {
        let ghost rest = attempts@.subrange(i as int, attempts@.len() as int);
        assert(rest[0] == attempts@[i as int]);
        if attempts[i].id == id {
            return attempts[i].usage;
        }
        assert(rest.subrange(1, rest.len() as int) =~= attempts@.subrange(
            i + 1,
            attempts@.len() as int,
        ));
        i = i + 1;
    }
    Usage::zero()
}

/// Index of the attempt that is still open, the highest-numbered one.
fn active_attempt(attempts: &Vec<AttemptRow>) -> (k: usize)
    ensures
        is_active_index(attempts@, k as int),
        k <= attempts@.len(),
{
    let mut best: Option<usize> = None;
    let mut i: usize = 0;
    while i < attempts.len()
        invariant
            i <= attempts@.len(),
            match best {
                Some(b) => {
                    &&& b < i
                    &&& open_attempt(attempts@[b as int])
                    &&& forall|j: int|
                        0 <= j < i && open_attempt(#[trigger] attempts@[j]) ==> attempts@[j].no
                            <= attempts@[b as int].no
                    &&& forall|j: int|
                        0 <= j < b && open_attempt(#[trigger] attempts@[j]) ==> attempts@[j].no
                            < attempts@[b as int].no
                },
                None => forall|j: int| 0 <= j < i ==> !open_attempt(#[trigger] attempts@[j]),
            },
        decreases attempts@.len() - i,
    {
        let open = match attempts[i].status {
            AttemptState::Running | AttemptState::AwaitingInput => true,
            _ => false,
        };
        assert(open == open_attempt(attempts@[i as int]));
        if open {
            match best {
                Some(b) => {
                    if attempts[i].no > attempts[b].no {
                        best = Some(i);
                    }
                },
                None => {
                    best = Some(i);
                },
            }
        }
        i = i + 1;
    }
    match best {
        Some(b) => b,
        None => attempts.len(),
    }
}

/// Adds one usage number to a running sum, unless it leaves the column.
fn add_number(sum: i64, n: u64) -> (r: Option<i64>)
    requires
        sum >= 0,
    ensures
        match r {
            Some(c) => c == sum + n && c >= 0,
            None => sum + n > i64::MAX,
        },
{
    let s: u128 = (sum as u128) + (n as u128);
    if s > 0x7fff_ffff_ffff_ffff {
        None
    } else {
        Some(s as i64)
    }
}

proof fn lemma_total_prefix(s: Seq<AttemptRow>, f: spec_fn(Usage) -> int, i: int)
    requires
        0 <= i < s.len(),
    ensures
        total(s.subrange(0, i + 1), f) == total(s.subrange(0, i), f) + f(s[i].usage),
{
    assert(s.subrange(0, i + 1).drop_last() =~= s.subrange(0, i));
}

proof fn lemma_total_grows(s: Seq<AttemptRow>, f: spec_fn(Usage) -> int, i: int)
    requires
        0 <= i <= s.len(),
        forall|u: Usage| #[trigger] f(u) >= 0,
    ensures
        0 <= total(s.subrange(0, i), f) <= total(s, f),
    decreases s.len() - i,
{
    if i == s.len() {
        assert(s.subrange(0, i) =~= s);
        lemma_total_nonneg(s, f);
    } else {
        lemma_total_grows(s, f, i + 1);
        lemma_total_prefix(s, f, i);
        lemma_total_nonneg(s.subrange(0, i), f);
    }
}

proof fn lemma_total_nonneg(s: Seq<AttemptRow>, f: spec_fn(Usage) -> int)
    requires
        forall|u: Usage| #[trigger] f(u) >= 0,
    ensures
        total(s, f) >= 0,
    decreases s.len(),
{
    if s.len() > 0 {
        lemma_total_nonneg(s.drop_last(), f);
    }
}

proof fn lemma_total_cost_prefix(s: Seq<AttemptRow>, i: int)
    requires
        0 <= i <= s.len(),
        total_cost(s.subrange(0, i)) is None,
    ensures
        total_cost(s) is None,
    decreases s.len() - i,
{
    if i == s.len() {
        assert(s.subrange(0, i) =~= s);
    } else {
        assert(s.subrange(0, i + 1).drop_last() =~= s.subrange(0, i));
        lemma_total_cost_prefix(s, i + 1);
    }
}

/// Sets the usage columns to the sums over the attempts; `None` where a column
/// cannot hold its sum.
pub fn recompute_usage(row: TaskBoardRow) -> (r: Option<TaskBoardRow>)
    requires
        forall|i: int| 0 <= i < row.attempts@.len() ==> (#[trigger] row.attempts@[i]).usage.wf(),
    ensures
        match r {
            Some(n) => totals_fit(row.attempts@) && n == with_attempts(row, n) && n.attempts
                == row.attempts && wf(n),
            None => !totals_fit(row.attempts@),
        },
{
    let mut input: i64 = 0;
    let mut output: i64 = 0;
    let mut cache_read: i64 = 0;
    let mut cache_write: i64 = 0;
    let mut wall: i64 = 0;
    let mut cost: Option<Amount> = None;
    let ghost s = row.attempts@;
    let mut i: usize = 0;
    while i < row.attempts.len()
        invariant
            i <= s.len(),
            s == row.attempts@,
            input == total(s.subrange(0, i as int), input_of()) && input >= 0,
            output == total(s.subrange(0, i as int), output_of()) && output >= 0,
            cache_read == total(s.subrange(0, i as int), cache_read_of()) && cache_read >= 0,
            cache_write == total(s.subrange(0, i as int), cache_write_of()) && cache_write >= 0,
            wall == total(s.subrange(0, i as int), wall_of()) && wall >= 0,
            total_cost(s.subrange(0, i as int)) == Some(cost),
            cost matches Some(a) ==> a.wf(),
            forall|i: int| 0 <= i < s.len() ==> (#[trigger] s[i]).usage.wf(),
        decreases s.len() - i,
    {
        let u = row.attempts[i].usage;
        proof {
            lemma_total_prefix(s, input_of(), i as int);
            lemma_total_prefix(s, output_of(), i as int);
            lemma_total_prefix(s, cache_read_of(), i as int);
            lemma_total_prefix(s, cache_write_of(), i as int);
            lemma_total_prefix(s, wall_of(), i as int);
            lemma_total_grows(s, input_of(), i + 1);
            lemma_total_grows(s, output_of(), i + 1);
            lemma_total_grows(s, cache_read_of(), i + 1);
            lemma_total_grows(s, cache_write_of(), i + 1);
            lemma_total_grows(s, wall_of(), i + 1);
            assert(s.subrange(0, i + 1).drop_last() =~= s.subrange(0, i as int));
        }
        let new_input = add_number(input, u.input_tokens);
        let new_output = add_number(output, u.output_tokens);
        let new_cache_read = add_number(cache_read, u.cache_read_tokens);
        let new_cache_write = add_number(cache_write, u.cache_write_tokens);
        let new_wall = add_number(wall, u.wall_ms);
        let new_cost = add_costs(cost, u.cost_usd);
        match (new_input, new_output, new_cache_read, new_cache_write, new_wall, new_cost) {
            (Some(a), Some(b), Some(c), Some(d), Some(e), Some(f)) => {
                input = a;
                output = b;
                cache_read = c;
                cache_write = d;
                wall = e;
                cost = f;
            },
            _ => {
                proof {
                    if new_cost is None {
                        assert(total_cost(s.subrange(0, i + 1)) is None);
                        lemma_total_cost_prefix(s, i + 1);
                    }
                }
                return None;
            },
        }
        i = i + 1;
    }
    assert(s.subrange(0, s.len() as int) =~= s);
    let mut r = row;
    r.input_tokens = input;
    r.output_tokens = output;
    r.cache_read_tokens = cache_read;
    r.cache_write_tokens = cache_write;
    r.wall_ms = wall;
    r.cost_usd = Usd(cost);
    Some(r)
}

proof fn lemma_total_same(a: Seq<AttemptRow>, b: Seq<AttemptRow>, f: spec_fn(Usage) -> int)
    requires
        a.len() == b.len(),
        forall|i: int| 0 <= i < a.len() ==> (#[trigger] a[i]).usage == b[i].usage,
    ensures
        total(a, f) == total(b, f),
    decreases a.len(),
{
    if a.len() > 0 {
        let a1 = a.drop_last();
        let b1 = b.drop_last();
        assert forall|i: int| 0 <= i < a1.len() implies (#[trigger] a1[i]).usage == b1[i].usage by {
            assert(a1[i] == a[i]);
        }
        lemma_total_same(a1, b1, f);
        assert(a.last() == a[a.len() - 1]);
    }
}

proof fn lemma_total_cost_same(a: Seq<AttemptRow>, b: Seq<AttemptRow>)
    requires
        a.len() == b.len(),
        forall|i: int| 0 <= i < a.len() ==> (#[trigger] a[i]).usage == b[i].usage,
    ensures
        total_cost(a) == total_cost(b),
    decreases a.len(),
{
    if a.len() > 0 {
        let a1 = a.drop_last();
        let b1 = b.drop_last();
        assert forall|i: int| 0 <= i < a1.len() implies (#[trigger] a1[i]).usage == b1[i].usage by {
            assert(a1[i] == a[i]);
        }
        lemma_total_cost_same(a1, b1);
        assert(a.last() == a[a.len() - 1]);
    }
}

/// Attempts with the same usages keep the usage columns right.
proof fn lemma_still_consistent(r: TaskBoardRow, n: TaskBoardRow)
    requires
        wf(r),
        n.input_tokens == r.input_tokens,
        n.output_tokens == r.output_tokens,
        n.cache_read_tokens == r.cache_read_tokens,
        n.cache_write_tokens == r.cache_write_tokens,
        n.wall_ms == r.wall_ms,
        n.cost_usd == r.cost_usd,
        n.attempts@.len() == r.attempts@.len(),
        forall|i: int|
            0 <= i < r.attempts@.len() ==> (#[trigger] r.attempts@[i]).usage
                == n.attempts@[i].usage,
    ensures
        wf(n),
        totals_fit(n.attempts@),
        totals_fit(r.attempts@),
{
    let a = r.attempts@;
    let b = n.attempts@;
    lemma_total_same(a, b, input_of());
    lemma_total_same(a, b, output_of());
    lemma_total_same(a, b, cache_read_of());
    lemma_total_same(a, b, cache_write_of());
    lemma_total_same(a, b, wall_of());
    lemma_total_cost_same(a, b);
    assert forall|i: int| 0 <= i < b.len() implies (#[trigger] b[i]).usage.wf() by {
        assert(a[i].usage == b[i].usage);
    }
}

/// Makes the update, leaving the usage columns alone.
fn exec_update(row: TaskBoardRow, meta: &EventMeta, update: AttemptUpdate) -> (n: TaskBoardRow)
    ensures
        updated(row, *meta, update, n),
        n.input_tokens == row.input_tokens,
        n.output_tokens == row.output_tokens,
        n.cache_read_tokens == row.cache_read_tokens,
        n.cache_write_tokens == row.cache_write_tokens,
        n.wall_ms == row.wall_ms,
        n.cost_usd == row.cost_usd,
{
    let mut r = stamp(row, meta);
    r.attempts = patch_attempts(r.attempts, update.attempt_id, &update.patch);
    if let Some(status) = update.status {
        r.status = status;
    }
    if update.ended {
        r.ended_at = Some(meta.occurred_at);
    }
    if let Some(summary) = update.summary {
        r.summary = Some(summary);
    }
    if let Some(failure) = update.failure {
        r.failure_class = Some(failure.class);
        r.failure_message = Some(failure.message);
    }
    if let Some(more) = update.artifacts {
        let mut more = more;
        let mut artifacts = r.artifacts;
        artifacts.append(&mut more);
        r.artifacts = artifacts;
    }
    if let Some(awaiting) = update.awaiting {
        r.awaiting_question_id = awaiting;
    }
    r
}

/// The update and the usage columns that follow from it.
fn exec_and_recompute(row: TaskBoardRow, meta: &EventMeta, update: AttemptUpdate) -> (r: Option<
    TaskBoardRow,
>)
    requires
        wf(row),
        update.patch.usage matches Some(u) ==> u.wf(),
    ensures
        match r {
            Some(n) => updated(row, *meta, update, n) && wf(n) && totals_fit(
                patch_all(row.attempts@, update.attempt_id, update.patch),
            ),
            None => !totals_fit(patch_all(row.attempts@, update.attempt_id, update.patch)),
        },
{
    let ghost before = row;
    let n = exec_update(row, meta, update);
    assert forall|i: int| 0 <= i < n.attempts@.len() implies (#[trigger] n.attempts@[i]).usage.wf() by {
        assert(before.attempts@[i].usage.wf());
    }
    recompute_usage(n)
}

impl TaskBoard {
    /// A new projection.
    pub fn new() -> (r: TaskBoard)
        ensures
            r == TaskBoard,
    {
        TaskBoard
    }

    /// Stable name.
    pub fn name(&self) -> (r: &'static str)
        ensures
            r@ == NAME@,
    {
        NAME
    }

    /// Whether the projection cares about `event_type`.
    pub fn handles(&self, event_type: &str) -> (b: bool)
        ensures
            b == has_prefix(event_type@, "task."@),
    {
        crate::text::starts_with(event_type, "task.")
    }

    /// Folds one event of `task` into its row; `seq` is the number of tasks that
    /// the run has on the board already. Fails only where a column cannot hold
    /// the new number.
    pub fn handle(
        &self,
        row: Option<TaskBoardRow>,
        task: TaskId,
        seq: i32,
        event: TaskEvent,
        meta: &EventMeta,
    ) -> (r: Result<Option<TaskBoardRow>, ProjectionError>)
        requires
            event.wf(),
            row matches Some(r) ==> wf(r),
        ensures
            match r {
                Ok(new) => accepts(row, event, *meta) && applied(
                    row,
                    task,
                    seq,
                    event,
                    *meta,
                    new,
                ) && (new matches Some(n) ==> wf(n)),
                Err(err) => err == ProjectionError::OutOfRange && !accepts(row, event, *meta),
            },
    {
        let row = match row {
            Some(row) => row,
            None => {
                return match event {
                    TaskEvent::Created { run_id, kind, spec, budget } => {
                        let n = TaskBoardRow {
                            task_id: task,
                            run_id,
                            version: version(meta),
                            seq,
                            kind,
                            status: TaskStatus::Pending,
                            spec,
                            budget,
                            route: None,
                            selection: None,
                            attempts: Vec::new(),
                            attempt_count: 0,
                            cost_usd: Usd(None),
                            input_tokens: 0,
                            output_tokens: 0,
                            cache_read_tokens: 0,
                            cache_write_tokens: 0,
                            wall_ms: 0,
                            artifacts: Vec::new(),
                            summary: None,
                            failure_class: None,
                            failure_message: None,
                            awaiting_question_id: None,
                            started_at: None,
                            ended_at: None,
                            created_at: meta.occurred_at,
                            updated_at: meta.occurred_at,
                            last_position: position(meta),
                        };
                        Ok(Some(n))
                    },
                    _ => Ok(None),
                };
            },
        };
        if row.version >= version(meta) {
            return Ok(Some(row));
        }
        proof {
            lemma_still_consistent(row, row);
        }
        let ghost ev = event;
        let ghost before = row;
        match event {
            TaskEvent::Created { run_id, kind, spec, budget } => {
                let mut r = stamp(row, meta);
                r.run_id = run_id;
                r.kind = kind;
                r.status = TaskStatus::Pending;
                r.spec = spec;
                r.budget = budget;
                r.created_at = meta.occurred_at;
                Ok(Some(r))
            },
            TaskEvent::Routed { route, selection } => {
                let mut r = stamp(row, meta);
                r.status = TaskStatus::Routed;
                r.route = Some(route);
                r.selection = Some(selection);
                Ok(Some(r))
            },
            TaskEvent::AttemptStarted {
                attempt_id,
                attempt_no,
                route,
                workspace,
                worker_session_id,
            } => {
                if row.attempt_count == i32::MAX {
                    return Err(ProjectionError::OutOfRange);
                }
                let mut r = stamp(row, meta);
                let kept = route.clone();
                let mut attempts = r.attempts;
                attempts.push(
                    AttemptRow {
                        id: attempt_id,
                        no: attempt_no,
                        route: kept,
                        status: AttemptState::Running,
                        workspace,
                        worker_session_id,
                        started_at: meta.occurred_at,
                        ended_at: None,
                        usage: Usage::zero(),
                        summary: None,
                        failure: None,
                        last_log_seq: 0,
                        pending_question: None,
                    },
                );
                r.attempts = attempts;
                r.status = TaskStatus::Running;
                r.attempt_count = r.attempt_count + 1;
                if r.started_at.is_none() {
                    r.started_at = Some(meta.occurred_at);
                }
                r.ended_at = None;
                r.awaiting_question_id = None;
                r.route = Some(route);
                assert(r.attempts@ == before.attempts@.push(started_attempt(ev, *meta)));
                assert forall|i: int| 0 <= i < r.attempts@.len() implies (
                #[trigger] r.attempts@[i]).usage.wf() by {
                    if i < before.attempts@.len() {
                        assert(before.attempts@[i].usage.wf());
                    }
                }
                match recompute_usage(r) {
                    Some(n) => Ok(Some(n)),
                    None => Err(ProjectionError::OutOfRange),
                }
            },
            TaskEvent::Progressed { attempt_id, summary, usage_delta, log_seq } => {
                let current = attempt_usage(&row.attempts, attempt_id);
                let usage = match current.plus(&usage_delta) {
                    Some(usage) => usage,
                    None => {
                        return Err(ProjectionError::OutOfRange);
                    },
                };
                let mut patch = empty_patch();
                patch.summary = Some(summary.clone());
                patch.last_log_seq = Some(log_seq);
                patch.usage = Some(usage);
                let update = AttemptUpdate {
                    attempt_id,
                    patch,
                    status: None,
                    ended: false,
                    summary: Some(summary),
                    failure: None,
                    artifacts: None,
                    awaiting: None,
                };
                assert(update == update_of(before, ev, *meta));
                match exec_and_recompute(row, meta, update) {
                    Some(n) => Ok(Some(n)),
                    None => Err(ProjectionError::OutOfRange),
                }
            },
            TaskEvent::InputRequested { attempt_id, question_id } => {
                let mut patch = empty_patch();
                patch.status = Some(AttemptState::AwaitingInput);
                patch.pending_question = Some(Some(question_id));
                let update = AttemptUpdate {
                    attempt_id,
                    patch,
                    status: Some(TaskStatus::AwaitingInput),
                    ended: false,
                    summary: None,
                    failure: None,
                    artifacts: None,
                    awaiting: Some(Some(question_id)),
                };
                assert(update == update_of(before, ev, *meta));
                let n = exec_update(row, meta, update);
                proof {
                    lemma_still_consistent(before, n);
                }
                Ok(Some(n))
            },
            TaskEvent::InputProvided { attempt_id } => {
                let mut patch = empty_patch();
                patch.status = Some(AttemptState::Running);
                patch.pending_question = Some(None);
                let update = AttemptUpdate {
                    attempt_id,
                    patch,
                    status: Some(TaskStatus::Running),
                    ended: false,
                    summary: None,
                    failure: None,
                    artifacts: None,
                    awaiting: Some(None),
                };
                assert(update == update_of(before, ev, *meta));
                let n = exec_update(row, meta, update);
                proof {
                    lemma_still_consistent(before, n);
                }
                Ok(Some(n))
            },
            TaskEvent::AttemptSucceeded { attempt_id, artifacts, summary, usage } => {
                let mut patch = empty_patch();
                patch.status = Some(AttemptState::Succeeded);
                patch.ended_at = Some(meta.occurred_at);
                patch.summary = Some(summary.clone());
                patch.pending_question = Some(None);
                patch.usage = Some(usage);
                let update = AttemptUpdate {
                    attempt_id,
                    patch,
                    status: Some(TaskStatus::Succeeded),
                    ended: true,
                    summary: Some(summary),
                    failure: None,
                    artifacts: Some(artifacts),
                    awaiting: Some(None),
                };
                assert(update == update_of(before, ev, *meta));
                match exec_and_recompute(row, meta, update) {
                    Some(n) => Ok(Some(n)),
                    None => Err(ProjectionError::OutOfRange),
                }
            },
            TaskEvent::AttemptFailed { attempt_id, class, message, usage } => {
                let mut patch = empty_patch();
                patch.status = Some(AttemptState::Failed);
                patch.ended_at = Some(meta.occurred_at);
                patch.pending_question = Some(None);
                patch.usage = Some(usage);
                patch.failure = Some(AttemptFailure { class, message: message.clone() });
                let update = AttemptUpdate {
                    attempt_id,
                    patch,
                    status: Some(TaskStatus::Failed),
                    ended: true,
                    summary: None,
                    failure: Some(AttemptFailure { class, message }),
                    artifacts: None,
                    awaiting: Some(None),
                };
                assert(update == update_of(before, ev, *meta));
                match exec_and_recompute(row, meta, update) {
                    Some(n) => Ok(Some(n)),
                    None => Err(ProjectionError::OutOfRange),
                }
            },
            TaskEvent::Retried => {
                let mut r = stamp(row, meta);
                r.status = TaskStatus::Routed;
                Ok(Some(r))
            },
            TaskEvent::Cancelled { reason } => {
                let k: usize = active_attempt(&row.attempts);
                let target: AttemptId = if k < row.attempts.len() {
                    row.attempts[k].id
                } else {
                    0
                };
                let mut patch = empty_patch();
                patch.status = Some(AttemptState::Failed);
                patch.ended_at = Some(meta.occurred_at);
                patch.pending_question = Some(None);
                patch.failure = Some(
                    AttemptFailure { class: FailureClass::Cancelled, message: reason.clone() },
                );
                let update = AttemptUpdate {
                    attempt_id: target,
                    patch,
                    status: Some(TaskStatus::Cancelled),
                    ended: true,
                    summary: None,
                    failure: Some(
                        AttemptFailure { class: FailureClass::Cancelled, message: reason },
                    ),
                    artifacts: None,
                    awaiting: Some(None),
                };
                assert(update == cancel_update(before, ev->Cancelled_reason, *meta, k as int));
                let n = exec_update(row, meta, update);
                proof {
                    lemma_still_consistent(before, n);
                }
                Ok(Some(n))
            },
            TaskEvent::Skipped { reason } => {
                let mut r = stamp(row, meta);
                r.status = TaskStatus::Skipped;
                r.failure_message = Some(reason);
                r.ended_at = Some(meta.occurred_at);
                Ok(Some(r))
            },
        }
    }
}

// ---------------------------------------------------------------------------
// Laws
// ---------------------------------------------------------------------------
/// Applying the same event twice is applying it once.
pub proof fn law_replay_changes_nothing(
    row: Option<TaskBoardRow>,
    task: TaskId,
    seq: i32,
    e: TaskEvent,
    m: EventMeta,
    once: Option<TaskBoardRow>,
    later_seq: i32,
    twice: Option<TaskBoardRow>,
)
    requires
        applied(row, task, seq, e, m, once),
        applied(once, task, later_seq, e, m, twice),
    ensures
        twice == once,
{
}

/// An event at or below the version of the row changes nothing, whatever it is.
pub proof fn law_older_events_change_nothing(
    row: TaskBoardRow,
    task: TaskId,
    seq: i32,
    e: TaskEvent,
    m: EventMeta,
    new: Option<TaskBoardRow>,
)
    requires
        applied(Some(row), task, seq, e, m, new),
        clamp_spec(m.aggregate_version) <= row.version,
    ensures
        new == Some(row),
{
}

/// Attempts are only ever added: none is lost, and none changes its place, its
/// id or its number.
pub proof fn law_attempts_keep_their_place(
    row: TaskBoardRow,
    task: TaskId,
    seq: i32,
    e: TaskEvent,
    m: EventMeta,
    new: TaskBoardRow,
)
    requires
        applied(Some(row), task, seq, e, m, Some(new)),
    ensures
        new.attempts@.len() >= row.attempts@.len(),
        forall|i: int|
            0 <= i < row.attempts@.len() ==> (#[trigger] new.attempts@[i]).id
                == row.attempts@[i].id && new.attempts@[i].no == row.attempts@[i].no,
{
}

/// How an event changes the row of `task`.
pub open spec fn fold_step(task: TaskId) -> spec_fn(
    Option<TaskBoardRow>,
    (TaskEvent, EventMeta),
    Option<TaskBoardRow>,
) -> bool {
    |row: Option<TaskBoardRow>, e: (TaskEvent, EventMeta), new: Option<TaskBoardRow>| 
        exists|seq: i32| #[trigger] applied(row, task, seq, e.0, e.1, new)
}

/// Folding a batch of events in their order once more leaves the row as it was,
/// wherever the batch began.
pub proof fn law_replaying_a_batch_changes_nothing(
    task: TaskId,
    rows: Seq<Option<TaskBoardRow>>,
    events: Seq<(TaskEvent, EventMeta)>,
    again: Seq<Option<TaskBoardRow>>,
)
    requires
        forall|i: int, j: int|
            0 <= i <= j < events.len() ==> (#[trigger] events[i]).1.aggregate_version <= (
            #[trigger] events[j]).1.aggregate_version,
        folded(fold_step(task), rows, events),
        folded(fold_step(task), again, events),
        again[0] == rows.last(),
    ensures
        forall|i: int| 0 <= i < again.len() ==> #[trigger] again[i] == rows.last(),
{
    let row_version = |r: TaskBoardRow| r.version as int;
    let version = |e: (TaskEvent, EventMeta)| clamp_spec(e.1.aggregate_version) as int;
    assert(in_order(events, version));
    assert(versioned(fold_step(task), row_version, version));
    assert forall|i: int| 0 <= i < again.len() implies #[trigger] again[i] == rows.last() by {
        lemma_replay(fold_step(task), row_version, version, rows, events, again, i);
    }
}

proof fn lemma_active_index_is_unique(s: Seq<AttemptRow>, i: int, j: int)
    requires
        is_active_index(s, i),
        is_active_index(s, j),
    ensures
        i == j,
{
    if exists|k: int| 0 <= k < s.len() && open_attempt(#[trigger] s[k]) {
        assert(open_attempt(s[i]) && open_attempt(s[j]));
        if i < j {
            assert(s[i].no < s[j].no);
        } else if j < i {
            assert(s[j].no < s[i].no);
        }
    }
}

/// How an event changes the row of `task`, given the number of the run's tasks on
/// the board.
pub open spec fn numbered_step(task: TaskId) -> spec_fn(
    Option<TaskBoardRow>,
    (TaskEvent, EventMeta, i32),
    Option<TaskBoardRow>,
) -> bool {
    |row: Option<TaskBoardRow>, e: (TaskEvent, EventMeta, i32), new: Option<TaskBoardRow>|
        applied(row, task, e.2, e.0, e.1, new) && (new matches Some(n) ==> wf(n))
}

/// The two rows show the same.
pub open spec fn same_row(a: Option<TaskBoardRow>, b: Option<TaskBoardRow>) -> bool {
    match (a, b) {
        (Some(x), Some(y)) => x.attempts@ == y.attempts@ && x.artifacts@ == y.artifacts@ && y == (
        TaskBoardRow { attempts: y.attempts, artifacts: y.artifacts, ..x }),
        (None, None) => true,
        _ => false,
    }
}

proof fn lemma_step_keeps_same(
    task: TaskId,
    a: Option<TaskBoardRow>,
    b: Option<TaskBoardRow>,
    e: (TaskEvent, EventMeta, i32),
    x: Option<TaskBoardRow>,
    y: Option<TaskBoardRow>,
)
    requires
        numbered_step(task)(a, e, x),
        numbered_step(task)(b, e, y),
        same_row(a, b),
    ensures
        same_row(x, y),
{
    if let (Some(r), Some(q)) = (a, b) {
        if !seen(r, e.1) {
            if let TaskEvent::Cancelled { reason } = e.0 {
                let k = choose|k: int|
                    is_active_index(r.attempts@, k) && #[trigger] updated(
                        r,
                        e.1,
                        cancel_update(r, reason, e.1, k),
                        x->0,
                    );
                let l = choose|l: int|
                    is_active_index(q.attempts@, l) && #[trigger] updated(
                        q,
                        e.1,
                        cancel_update(q, reason, e.1, l),
                        y->0,
                    );
                lemma_active_index_is_unique(r.attempts@, k, l);
            }
            assert(x->0.attempts@ =~= y->0.attempts@);
            assert(x->0.artifacts@ =~= y->0.artifacts@);
        }
    } else if let (Some(n), Some(o)) = (x, y) {
        assert(n.attempts@ =~= o.attempts@);
        assert(n.artifacts@ =~= o.artifacts@);
    }
}

/// A rebuild ends with the row that was there before: folding the same events from
/// an empty table a second time gives the same row after each of them.
pub proof fn law_a_rebuild_gives_the_same_row(
    task: TaskId,
    rows: Seq<Option<TaskBoardRow>>,
    again: Seq<Option<TaskBoardRow>>,
    events: Seq<(TaskEvent, EventMeta, i32)>,
)
    requires
        folded(numbered_step(task), rows, events),
        folded(numbered_step(task), again, events),
        rows[0] is None,
        again[0] is None,
    ensures
        forall|i: int| 0 <= i < rows.len() ==> same_row(#[trigger] rows[i], again[i]),
{
    let same = |a: Option<TaskBoardRow>, b: Option<TaskBoardRow>| same_row(a, b);
    assert forall|
        a: Option<TaskBoardRow>,
        b: Option<TaskBoardRow>,
        e: (TaskEvent, EventMeta, i32),
        x: Option<TaskBoardRow>,
        y: Option<TaskBoardRow>,
    |
        #![trigger numbered_step(task)(a, e, x), numbered_step(task)(b, e, y)]
        numbered_step(task)(a, e, x) && numbered_step(task)(b, e, y) && same(a, b) implies same(
        x,
        y,
    ) by {
        lemma_step_keeps_same(task, a, b, e, x, y);
    }
    assert(congruent(numbered_step(task), same));
    assert forall|i: int| 0 <= i < rows.len() implies same_row(#[trigger] rows[i], again[i]) by {
        lemma_rebuild(numbered_step(task), same, rows, again, events, i);
    }
}

/// A task's status follows its life: each event that moves the task leads to its
/// own status, whatever the row showed before; progress leaves it alone.
pub proof fn law_the_status_follows_the_task(
    row: TaskBoardRow,
    task: TaskId,
    seq: i32,
    e: TaskEvent,
    m: EventMeta,
    new: Option<TaskBoardRow>,
)
    requires
        applied(Some(row), task, seq, e, m, new),
        row.version < m.aggregate_version <= i64::MAX,
        m.position <= i64::MAX,
    ensures
        new is Some,
        new->0.version == m.aggregate_version,
        new->0.last_position == m.position,
        new->0.updated_at == m.occurred_at,
        new->0.task_id == row.task_id,
        new->0.seq == row.seq,
        match e {
            TaskEvent::Created { .. } => new->0.status == TaskStatus::Pending,
            TaskEvent::Routed { .. } => new->0.status == TaskStatus::Routed,
            TaskEvent::AttemptStarted { .. } => new->0.status == TaskStatus::Running,
            TaskEvent::Progressed { .. } => new->0.status == row.status,
            TaskEvent::InputRequested { .. } => new->0.status == TaskStatus::AwaitingInput,
            TaskEvent::InputProvided { .. } => new->0.status == TaskStatus::Running,
            TaskEvent::AttemptSucceeded { .. } => new->0.status == TaskStatus::Succeeded,
            TaskEvent::AttemptFailed { .. } => new->0.status == TaskStatus::Failed,
            TaskEvent::Retried => new->0.status == TaskStatus::Routed,
            TaskEvent::Cancelled { .. } => new->0.status == TaskStatus::Cancelled,
            TaskEvent::Skipped { .. } => new->0.status == TaskStatus::Skipped,
        },
{
}

/// The creation of a task makes its row: pending, as it was created, with its
/// place in the run and nothing else filled in. No other event makes one.
pub proof fn law_a_task_starts_its_row(
    task: TaskId,
    seq: i32,
    e: TaskEvent,
    m: EventMeta,
    new: Option<TaskBoardRow>,
)
    requires
        applied(None, task, seq, e, m, new),
    ensures
        new is Some <==> e is Created,
        e matches TaskEvent::Created { run_id, kind, spec, budget } ==> {
            let n = new->0;
            &&& n.task_id == task && n.run_id == run_id && n.seq == seq
            &&& n.kind == kind && n.spec == spec && n.budget == budget
            &&& n.status == TaskStatus::Pending
            &&& n.created_at == m.occurred_at
            &&& n.attempts@.len() == 0 && n.attempt_count == 0 && n.artifacts@.len() == 0
            &&& n.route is None && n.summary is None && n.failure_class is None
                && n.failure_message is None && n.awaiting_question_id is None && n.started_at is None
                && n.ended_at is None
        },
{
}

/// A started attempt stands behind the earlier ones, running, with nothing used,
/// and the task counts one more; the earlier ones stay as they were.
pub proof fn law_a_started_attempt_is_added(
    row: TaskBoardRow,
    task: TaskId,
    seq: i32,
    e: TaskEvent,
    m: EventMeta,
    new: Option<TaskBoardRow>,
)
    requires
        applied(Some(row), task, seq, e, m, new),
        accepts(Some(row), e, m),
        row.version < m.aggregate_version <= i64::MAX,
    ensures
        e matches TaskEvent::AttemptStarted {
            attempt_id,
            attempt_no,
            route,
            workspace,
            worker_session_id,
        } ==> {
            let n = new->0;
            let a = n.attempts@.last();
            &&& n.attempts@.len() == row.attempts@.len() + 1
            &&& n.attempts@.drop_last() == row.attempts@
            &&& a.id == attempt_id && a.no == attempt_no && a.route == route && a.workspace
                == workspace && a.worker_session_id == worker_session_id
            &&& a.status == AttemptState::Running
            &&& a.started_at == m.occurred_at && a.ended_at is None
            &&& a.usage.input_tokens == 0 && a.usage.output_tokens == 0 && a.usage.cache_read_tokens
                == 0 && a.usage.cache_write_tokens == 0 && a.usage.wall_ms == 0
                && a.usage.cost_usd is None
            &&& a.summary is None && a.failure is None && a.pending_question is None
                && a.last_log_seq == 0
            &&& n.attempt_count == row.attempt_count + 1
            &&& n.route == Some(route)
            &&& n.ended_at is None && n.awaiting_question_id is None
            &&& row.started_at is Some ==> n.started_at == row.started_at
            &&& row.started_at is None ==> n.started_at == Some(m.occurred_at)
        },
        !(e is AttemptStarted) ==> new->0.attempts@.len() == row.attempts@.len()
            && new->0.attempt_count == row.attempt_count && new->0.started_at == row.started_at,
{
    if e is AttemptStarted {
        assert(new->0.attempts@.drop_last() =~= row.attempts@);
    }
}

/// What an event of an attempt changes in that attempt. Every other attempt stays
/// as it was, and the attempt keeps its number, its route and its start.
pub proof fn law_an_event_changes_its_attempt(
    row: TaskBoardRow,
    task: TaskId,
    seq: i32,
    e: TaskEvent,
    m: EventMeta,
    new: Option<TaskBoardRow>,
    i: int,
)
    requires
        applied(Some(row), task, seq, e, m, new),
        row.version < m.aggregate_version <= i64::MAX,
        0 <= i < row.attempts@.len(),
        e is Progressed || e is InputRequested || e is InputProvided || e is AttemptSucceeded
            || e is AttemptFailed,
    ensures
        ({
            let was = row.attempts@[i];
            let a = new->0.attempts@[i];
            &&& a.id == was.id && a.no == was.no && a.route == was.route && a.workspace
                == was.workspace && a.started_at == was.started_at
            &&& e matches TaskEvent::Progressed { attempt_id, summary, log_seq, .. } ==> {
                &&& was.id != attempt_id ==> a == was
                &&& was.id == attempt_id ==> a.summary == Some(summary) && a.last_log_seq == log_seq
                    && a.status == was.status && a.ended_at == was.ended_at && a.failure
                    == was.failure && a.pending_question == was.pending_question
            }
            &&& e matches TaskEvent::InputRequested { attempt_id, question_id } ==> {
                &&& was.id != attempt_id ==> a == was
                &&& was.id == attempt_id ==> a.status == AttemptState::AwaitingInput
                    && a.pending_question == Some(question_id) && a.usage == was.usage
            }
            &&& e matches TaskEvent::InputProvided { attempt_id } ==> {
                &&& was.id != attempt_id ==> a == was
                &&& was.id == attempt_id ==> a.status == AttemptState::Running
                    && a.pending_question is None && a.usage == was.usage
            }
            &&& e matches TaskEvent::AttemptSucceeded { attempt_id, summary, usage, .. } ==> {
                &&& was.id != attempt_id ==> a == was
                &&& was.id == attempt_id ==> a.status == AttemptState::Succeeded && a.usage == usage
                    && a.summary == Some(summary) && a.ended_at == Some(m.occurred_at)
                    && a.pending_question is None
            }
            &&& e matches TaskEvent::AttemptFailed { attempt_id, class, message, usage } ==> {
                &&& was.id != attempt_id ==> a == was
                &&& was.id == attempt_id ==> a.status == AttemptState::Failed && a.usage == usage
                    && a.ended_at == Some(m.occurred_at) && a.pending_question is None && (
                a.failure matches Some(f) && f.class == class && f.message == message)
            }
        }),
{
}

proof fn lemma_usage_of(s: Seq<AttemptRow>, id: AttemptId, i: int)
    requires
        0 <= i < s.len(),
        s[i].id == id,
        forall|j: int| 0 <= j < i ==> (#[trigger] s[j]).id != id,
    ensures
        usage_of(s, id) == s[i].usage,
    decreases s.len(),
{
    if i > 0 {
        assert(s[0].id != id);
        let rest = s.subrange(1, s.len() as int);
        assert forall|j: int| 0 <= j < i - 1 implies (#[trigger] rest[j]).id != id by {
            assert(rest[j] == s[j + 1]);
        }
        lemma_usage_of(rest, id, i - 1);
    }
}

/// Progress adds up: what an attempt used before and what was used since make its
/// usage, number by number, capped at the largest count.
pub proof fn law_progress_adds_to_its_attempt(
    row: TaskBoardRow,
    task: TaskId,
    seq: i32,
    e: TaskEvent,
    m: EventMeta,
    new: Option<TaskBoardRow>,
    i: int,
)
    requires
        applied(Some(row), task, seq, e, m, new),
        accepts(Some(row), e, m),
        row.version < m.aggregate_version <= i64::MAX,
        0 <= i < row.attempts@.len(),
        e matches TaskEvent::Progressed { attempt_id, .. } && row.attempts@[i].id == attempt_id && (
        forall|j: int| 0 <= j < i ==> (#[trigger] row.attempts@[j]).id != attempt_id),
    ensures
        ({
            let delta = e->usage_delta;
            let was = row.attempts@[i].usage;
            let now = new->0.attempts@[i].usage;
            &&& was.input_tokens + delta.input_tokens <= u64::MAX ==> now.input_tokens
                == was.input_tokens + delta.input_tokens
            &&& was.output_tokens + delta.output_tokens <= u64::MAX ==> now.output_tokens
                == was.output_tokens + delta.output_tokens
            &&& was.cache_read_tokens + delta.cache_read_tokens <= u64::MAX
                ==> now.cache_read_tokens == was.cache_read_tokens + delta.cache_read_tokens
            &&& was.cache_write_tokens + delta.cache_write_tokens <= u64::MAX
                ==> now.cache_write_tokens == was.cache_write_tokens + delta.cache_write_tokens
            &&& was.wall_ms + delta.wall_ms <= u64::MAX ==> now.wall_ms == was.wall_ms
                + delta.wall_ms
            &&& delta.cost_usd is None ==> now.cost_usd == was.cost_usd
            &&& was.cost_usd is None ==> now.cost_usd == delta.cost_usd
        }),
{
    lemma_usage_of(row.attempts@, row.attempts@[i].id, i);
}

/// A cancelled task takes its open attempt with it: that attempt failed as
/// cancelled, then and there. The attempts that were over stay as they were.
pub proof fn law_cancelling_ends_the_open_attempt(
    row: TaskBoardRow,
    task: TaskId,
    seq: i32,
    reason: String,
    m: EventMeta,
    new: Option<TaskBoardRow>,
    open: int,
    i: int,
)
    requires
        applied(Some(row), task, seq, TaskEvent::Cancelled { reason }, m, new),
        row.version < m.aggregate_version <= i64::MAX,
        0 <= open < row.attempts@.len(),
        row.attempts@[open].status == AttemptState::Running || row.attempts@[open].status
            == AttemptState::AwaitingInput,
        0 <= i < row.attempts@.len(),
        forall|j: int|
            0 <= j < row.attempts@.len() && j != open ==> (#[trigger] row.attempts@[j]).id
                != row.attempts@[open].id && (row.attempts@[j].status == AttemptState::Succeeded
                || row.attempts@[j].status == AttemptState::Failed),
    ensures
        ({
            let n = new->0;
            let a = n.attempts@[i];
            &&& i != open ==> a == row.attempts@[i]
            &&& i == open ==> a.status == AttemptState::Failed && a.ended_at == Some(m.occurred_at)
                && a.pending_question is None && a.usage == row.attempts@[i].usage && (
            a.failure matches Some(f) && f.class == FailureClass::Cancelled && f.message == reason)
            &&& n.ended_at == Some(m.occurred_at)
            &&& n.failure_class == Some(FailureClass::Cancelled)
            &&& n.failure_message == Some(reason)
            &&& n.awaiting_question_id is None
        }),
{
    let s = row.attempts@;
    assert(open_attempt(s[open]));
    let k = choose|k: int|
        is_active_index(s, k) && #[trigger] updated(row, m, cancel_update(row, reason, m, k), new->0);
    assert(open_attempt(s[k]));
    assert(k == open);
}

/// What an event leaves in the task's own columns. A column that the event has
/// nothing to say about keeps what it shows.
pub proof fn law_each_event_fills_its_columns(
    row: TaskBoardRow,
    task: TaskId,
    seq: i32,
    e: TaskEvent,
    m: EventMeta,
    new: Option<TaskBoardRow>,
)
    requires
        applied(Some(row), task, seq, e, m, new),
        row.version < m.aggregate_version <= i64::MAX,
    ensures
        ({
            let n = new->0;
            &&& e matches TaskEvent::Routed { route, selection } ==> n.route == Some(route)
                && n.selection == Some(selection)
            &&& !(e is Routed || e is AttemptStarted) ==> n.route == row.route
            &&& !(e is Routed) ==> n.selection == row.selection
            &&& e matches TaskEvent::Progressed { summary, .. } ==> n.summary == Some(summary)
            &&& e matches TaskEvent::AttemptSucceeded { summary, artifacts, .. } ==> n.summary
                == Some(summary) && n.artifacts@ == row.artifacts@ + artifacts@
            &&& !(e is Progressed || e is AttemptSucceeded) ==> n.summary == row.summary
            &&& !(e is AttemptSucceeded) ==> n.artifacts@ == row.artifacts@
            &&& e matches TaskEvent::AttemptFailed { class, message, .. } ==> n.failure_class
                == Some(class) && n.failure_message == Some(message)
            &&& e matches TaskEvent::Skipped { reason } ==> n.failure_message == Some(reason)
                && n.failure_class == row.failure_class
            &&& !(e is AttemptFailed || e is Cancelled || e is Skipped) ==> n.failure_class
                == row.failure_class && n.failure_message == row.failure_message
            &&& e matches TaskEvent::InputRequested { question_id, .. } ==> n.awaiting_question_id
                == Some(question_id)
            &&& e is InputProvided || e is AttemptSucceeded || e is AttemptFailed || e is Cancelled
                || e is AttemptStarted ==> n.awaiting_question_id is None
            &&& e is Created || e is Routed || e is Progressed || e is Retried || e is Skipped
                ==> n.awaiting_question_id == row.awaiting_question_id
            &&& e is AttemptSucceeded || e is AttemptFailed || e is Cancelled || e is Skipped
                ==> n.ended_at == Some(m.occurred_at)
            &&& e is Created || e is Routed || e is Progressed || e is InputRequested
                || e is InputProvided || e is Retried ==> n.ended_at == row.ended_at
            &&& !(e is Created) ==> n.created_at == row.created_at && n.kind == row.kind && n.spec
                == row.spec && n.budget == row.budget && n.run_id == row.run_id
        }),
{
}

/// The usage columns of a task are the sums over its attempts: none without one,
/// and each further attempt adds exactly its own numbers.
pub proof fn law_usage_columns_are_sums(r: TaskBoardRow, n: TaskBoardRow, a: AttemptRow)
    requires
        usage_consistent(r),
        usage_consistent(n),
        n.attempts@ == r.attempts@.push(a),
    ensures
        r.attempts@.len() == 0 ==> r.input_tokens == 0 && r.output_tokens == 0
            && r.cache_read_tokens == 0 && r.cache_write_tokens == 0 && r.wall_ms == 0 && r.cost_usd
            == Usd(None),
        n.input_tokens == r.input_tokens + a.usage.input_tokens,
        n.output_tokens == r.output_tokens + a.usage.output_tokens,
        n.cache_read_tokens == r.cache_read_tokens + a.usage.cache_read_tokens,
        n.cache_write_tokens == r.cache_write_tokens + a.usage.cache_write_tokens,
        n.wall_ms == r.wall_ms + a.usage.wall_ms,
        a.usage.cost_usd is None ==> n.cost_usd == r.cost_usd,
        r.cost_usd == Usd(None) ==> n.cost_usd == Usd(a.usage.cost_usd),
{
    assert(n.attempts@.drop_last() =~= r.attempts@);
}

/// A task that is not there yet, or that knows the event already, refuses nothing;
/// any other one refuses only what its columns cannot hold.
pub proof fn law_only_overflows_are_refused(row: TaskBoardRow, e: TaskEvent, m: EventMeta)
    ensures
        accepts(None, e, m),
        m.aggregate_version <= i64::MAX && m.aggregate_version <= row.version ==> accepts(
            Some(row),
            e,
            m,
        ),
        row.version < m.aggregate_version <= i64::MAX && accepts(Some(row), e, m) && e
            is AttemptStarted ==> row.attempt_count < i32::MAX,
        row.version < m.aggregate_version <= i64::MAX && accepts(Some(row), e, m)
            ==> totals_fit(attempts_after(row, e, m)),
        !(e is AttemptStarted) && !(e is Progressed) && totals_fit(attempts_after(row, e, m))
            ==> accepts(Some(row), e, m),
{
}

} // verus!
