//! The append-only transcript of each task attempt.
//!
//! Two writers share it: the task runner appends what the worker streams, and
//! the projection appends one `system` line per event of the task. Numbers are
//! given per task and attempt as the highest one so far plus one, so they are
//! strictly increasing and without gaps whoever writes. A line of the projection
//! carries its event's id, and an event that has a line already gets no second
//! one.
use vstd::prelude::*;

use super::query::{valid_instant, TaskLogRow};
use super::ProjectionError;
use crate::domain::{AttemptId, EventId, Micros, RunId, TaskId};
use crate::events::{EventMeta, TaskEvent};
use crate::text::has_prefix;

verus! {

/// Projection name and checkpoint key.
pub const NAME: &'static str = "task_log";

/// Kind of the lines that the projection writes.
pub const SYSTEM_KIND: &'static str = "system";

/// Attempt number of the lines that belong to the task itself.
pub const TASK_LEVEL_ATTEMPT: i32 = 0;

/// One line to append.
#[derive(Debug, PartialEq, Eq)]
pub struct NewTaskLogLine {
    pub task_id: TaskId,
    /// Zero for the lines of the task itself.
    pub attempt: i32,
    pub at: Micros,
    pub kind: String,
    /// JSON text.
    pub payload: String,
    pub run_id: Option<RunId>,
    pub attempt_id: Option<AttemptId>,
    /// Makes the append idempotent.
    pub source_event_id: Option<EventId>,
}

impl NewTaskLogLine {
    /// A worker's line, produced at `now`.
    pub fn new(task_id: TaskId, attempt: i32, kind: String, payload: String, now: Micros) -> (r:
        NewTaskLogLine)
        ensures
            r == (NewTaskLogLine {
                task_id,
                attempt,
                at: now,
                kind,
                payload,
                run_id: None,
                attempt_id: None,
                source_event_id: None,
            }),
    {
        NewTaskLogLine {
            task_id,
            attempt,
            at: now,
            kind,
            payload,
            run_id: None,
            attempt_id: None,
            source_event_id: None,
        }
    }

    /// Sets the time.
    pub fn at(self, at: Micros) -> (r: NewTaskLogLine)
        ensures
            r == (NewTaskLogLine { at, ..self }),
    {
        let mut line = self;
        line.at = at;
        line
    }

    /// Sets the run.
    pub fn run(self, run_id: RunId) -> (r: NewTaskLogLine)
        ensures
            r == (NewTaskLogLine { run_id: Some(run_id), ..self }),
    {
        let mut line = self;
        line.run_id = Some(run_id);
        line
    }

    /// Sets the attempt's id.
    pub fn attempt_id(self, attempt_id: AttemptId) -> (r: NewTaskLogLine)
        ensures
            r == (NewTaskLogLine { attempt_id: Some(attempt_id), ..self }),
    {
        let mut line = self;
        line.attempt_id = Some(attempt_id);
        line
    }

    /// The line under the number `seq`.
    pub open spec fn numbered(self, seq: i64) -> TaskLogRow {
        TaskLogRow {
            task_id: self.task_id,
            attempt: self.attempt,
            seq,
            at: self.at,
            kind: self.kind,
            payload: self.payload,
            run_id: self.run_id,
            attempt_id: self.attempt_id,
            source_event_id: self.source_event_id,
        }
    }
}

/// What appending `line` adds.
pub open spec fn line_appended(
    line: NewTaskLogLine,
    head: Option<i64>,
    known: bool,
    r: Result<Option<TaskLogRow>, ProjectionError>,
) -> bool {
    match r {
        Ok(Some(row)) => !(known && line.source_event_id is Some) && row == line.numbered(
            (head.unwrap_or(0) + 1) as i64,
        ) && head.unwrap_or(0) < i64::MAX,
        Ok(None) => known && line.source_event_id is Some,
        Err(e) => e == ProjectionError::OutOfRange && !(known && line.source_event_id is Some)
            && head.unwrap_or(0) == i64::MAX,
    }
}

/// The row that appending `line` adds, where `head` is the highest number of
/// the task and attempt so far (`None` without lines) and `known` says that the
/// line's event has a line already: nothing then, and no number is used up.
pub fn append_line(line: NewTaskLogLine, head: Option<i64>, known: bool) -> (r: Result<
    Option<TaskLogRow>,
    ProjectionError,
>)
    ensures
        line_appended(line, head, known, r),
{
    if known && line.source_event_id.is_some() {
        return Ok(None);
    }
    let last: i64 = match head {
        Some(n) => n,
        None => 0,
    };
    if last == i64::MAX {
        return Err(ProjectionError::OutOfRange);
    }
    Ok(
        Some(
            TaskLogRow {
                task_id: line.task_id,
                attempt: line.attempt,
                seq: last + 1,
                at: line.at,
                kind: line.kind,
                payload: line.payload,
                run_id: line.run_id,
                attempt_id: line.attempt_id,
                source_event_id: line.source_event_id,
            },
        ),
    )
}

/// The number of an appended line, zero where it was there already or its number
/// is negative.
pub fn line_number(seq: Option<i64>) -> (r: u64)
    ensures
        r == (match seq {
            Some(n) => if n < 0 {
                0
            } else {
                n as int
            },
            None => 0,
        }),
{
    match seq {
        Some(n) => if n < 0 {
            0
        } else {
            n as u64
        },
        None => 0,
    }
}

/// The instant `days` days before `now`, where a clock can show it.
pub open spec fn cutoff_of(now: Micros, days: u32) -> Option<Micros> {
    if valid_instant(now - days * 86_400_000_000) {
        Some((now - days * 86_400_000_000) as i64)
    } else {
        None
    }
}

/// The instant before which lines are pruned: `days` days before `now`; `None`
/// where no clock can show it.
pub fn prune_older_than_days(now: Micros, days: u32) -> (r: Option<Micros>)
    ensures
        r == cutoff_of(now, days),
{
    let cutoff: i128 = (now as i128) - (days as i128) * 86_400_000_000;
    if -8_334_601_228_800_000_000 <= cutoff && cutoff <= 8_210_266_876_799_999_999 {
        Some(cutoff as i64)
    } else {
        None
    }
}

/// Whether a line goes.
pub fn is_pruned(row: &TaskLogRow, cutoff: Micros) -> (b: bool)
    ensures
        b == (row.at < cutoff),
{
    row.at < cutoff
}

/// The first four bytes of the task's id, as a signed number.
pub open spec fn lock_key_spec(task: TaskId) -> int {
    let top = task as int / 0x1_0000_0000_0000_0000_0000_0000;
    if top < 0x8000_0000 {
        top
    } else {
        top - 0x1_0000_0000
    }
}

/// Advisory-lock key of a task.
pub fn lock_key(task: TaskId) -> (r: i32)
    ensures
        r == lock_key_spec(task),
{
    let top: u128 = task / 0x1_0000_0000_0000_0000_0000_0000;
    if top < 0x8000_0000 {
        top as i32
    } else {
        ((top as i64) - 0x1_0000_0000) as i32
    }
}

/// The attempt an event belongs to, where it names one.
pub open spec fn attempt_of_spec(event: TaskEvent) -> Option<AttemptId> {
    match event {
        TaskEvent::AttemptStarted { attempt_id, .. } => Some(attempt_id),
        TaskEvent::Progressed { attempt_id, .. } => Some(attempt_id),
        TaskEvent::InputRequested { attempt_id, .. } => Some(attempt_id),
        TaskEvent::InputProvided { attempt_id, .. } => Some(attempt_id),
        TaskEvent::AttemptSucceeded { attempt_id, .. } => Some(attempt_id),
        TaskEvent::AttemptFailed { attempt_id, .. } => Some(attempt_id),
        _ => None,
    }
}

/// The attempt an event belongs to, where it names one.
pub fn attempt_of(event: &TaskEvent) -> (r: Option<AttemptId>)
    ensures
        r == attempt_of_spec(*event),
{
    match event {
        TaskEvent::AttemptStarted { attempt_id, .. } => Some(*attempt_id),
        TaskEvent::Progressed { attempt_id, .. } => Some(*attempt_id),
        TaskEvent::InputRequested { attempt_id, .. } => Some(*attempt_id),
        TaskEvent::InputProvided { attempt_id, .. } => Some(*attempt_id),
        TaskEvent::AttemptSucceeded { attempt_id, .. } => Some(*attempt_id),
        TaskEvent::AttemptFailed { attempt_id, .. } => Some(*attempt_id),
        _ => None,
    }
}

/// The line of an event.
pub open spec fn event_line(
    event: TaskEvent,
    payload: String,
    meta: EventMeta,
    number: Option<i32>,
    line: NewTaskLogLine,
) -> bool {
    &&& line.task_id == meta.aggregate_id
    &&& line.attempt == (match event {
        TaskEvent::AttemptStarted { attempt_no, .. } => attempt_no as i32,
        _ => if attempt_of_spec(event) is Some && number is Some {
            number->0
        } else {
            TASK_LEVEL_ATTEMPT
        },
    })
    &&& line.at == meta.occurred_at
    &&& line.kind@ == SYSTEM_KIND@
    &&& line.payload == payload
    &&& line.run_id == Some(meta.run_id)
    &&& line.attempt_id == attempt_of_spec(event)
    &&& line.source_event_id == Some(meta.event_id)
}

/// Writes one `system` line per event of a task.
#[derive(Debug, Clone, Copy, PartialEq, Eq, Structural)]
pub struct TaskLogProjection;

impl TaskLogProjection {
    /// A new projection.
    pub fn new() -> (r: TaskLogProjection)
        ensures
            r == TaskLogProjection,
    {
        TaskLogProjection
    }

    /// Stable name.
    pub fn name(&self) -> (r: &'static str)
        ensures
            r@ == NAME@,
    {
        NAME
    }

    /// Whether the projection cares about `event_type`.
    pub fn handles(&self, event_type: &str) -> (b: bool)
        ensures
            b == has_prefix(event_type@, "task."@),
    {
        crate::text::starts_with(event_type, "task.")
    }

    /// The line of an event. `payload` is the event's own JSON text; `number` is
    /// the number of the attempt that the event names, read back from the event
    /// that started it.
    pub fn handle(
        &self,
        event: &TaskEvent,
        payload: String,
        meta: &EventMeta,
        number: Option<i32>,
    ) -> (r: NewTaskLogLine)
        ensures
            event_line(*event, payload, *meta, number, r),
    {
        let attempt_id = attempt_of(event);
        let mut attempt: i32 = match (attempt_id, number) {
            (Some(_), Some(n)) => n,
            _ => TASK_LEVEL_ATTEMPT,
        };
        if let TaskEvent::AttemptStarted { attempt_no, .. } = event {
            attempt = *attempt_no as i32;
        }
        NewTaskLogLine {
            task_id: meta.aggregate_id,
            attempt,
            at: meta.occurred_at,
            kind: SYSTEM_KIND.to_owned(),
            payload,
            run_id: Some(meta.run_id),
            attempt_id,
            source_event_id: Some(meta.event_id),
        }
    }
}

// ---------------------------------------------------------------------------
// Laws
// ---------------------------------------------------------------------------
/// The lines of one task and attempt, in the order they were written.
pub open spec fn lines_of_attempt(log: Seq<TaskLogRow>, task: TaskId, attempt: i32) -> Seq<
    TaskLogRow,
> {
    log.filter(|r: TaskLogRow| r.task_id == task && r.attempt == attempt)
}

/// The numbers of every task and attempt are 1, 2, 3, … in the order written.
pub open spec fn gap_free(log: Seq<TaskLogRow>) -> bool {
    forall|task: TaskId, attempt: i32, i: int|
        0 <= i < lines_of_attempt(log, task, attempt).len() ==> (
        #[trigger] lines_of_attempt(log, task, attempt)[i]).seq == i + 1
}

/// The highest number of a task and attempt (`None` without lines).
pub open spec fn head_of(log: Seq<TaskLogRow>, task: TaskId, attempt: i32) -> Option<i64> {
    let lines = lines_of_attempt(log, task, attempt);
    if lines.len() == 0 {
        None
    } else {
        Some(lines.last().seq)
    }
}

/// A line of the log carries the event's id already.
pub open spec fn has_line_of(log: Seq<TaskLogRow>, event: Option<EventId>) -> bool {
    event is Some && exists|i: int| 0 <= i < log.len() && (#[trigger] log[i]).source_event_id == event
}

/// The log after `line` was appended to it.
pub open spec fn appended(log: Seq<TaskLogRow>, line: NewTaskLogLine) -> Seq<TaskLogRow> {
    if has_line_of(log, line.source_event_id) {
        log
    } else {
        log.push(
            line.numbered((head_of(log, line.task_id, line.attempt).unwrap_or(0) + 1) as i64),
        )
    }
}

/// Appending keeps the numbers of every task and attempt increasing by one from
/// one, whoever writes the line.
pub proof fn law_numbers_stay_gap_free(log: Seq<TaskLogRow>, line: NewTaskLogLine)
    requires
        gap_free(log),
        head_of(log, line.task_id, line.attempt).unwrap_or(0) < i64::MAX,
    ensures
        gap_free(appended(log, line)),
{
    if !has_line_of(log, line.source_event_id) {
        let row = line.numbered(
            (head_of(log, line.task_id, line.attempt).unwrap_or(0) + 1) as i64,
        );
        let new = log.push(row);
        assert(new.drop_last() =~= log);
        assert forall|task: TaskId, attempt: i32, i: int|
            0 <= i < lines_of_attempt(new, task, attempt).len() implies (
        #[trigger] lines_of_attempt(new, task, attempt)[i]).seq == i + 1 by {
            reveal(Seq::filter);
            let before = lines_of_attempt(log, task, attempt);
            if row.task_id == task && row.attempt == attempt {
                assert(lines_of_attempt(new, task, attempt) == before.push(row));
                if i < before.len() {
                    assert(before[i].seq == i + 1);
                } else if before.len() > 0 {
                    assert(before[before.len() - 1].seq == before.len());
                }
            } else {
                assert(lines_of_attempt(new, task, attempt) == before);
                assert(before[i].seq == i + 1);
            }
        }
    }
}

/// Appending the line of an event a second time changes nothing.
pub proof fn law_replay_changes_nothing(log: Seq<TaskLogRow>, line: NewTaskLogLine)
    requires
        line.source_event_id is Some,
    ensures
        appended(appended(log, line), line) == appended(log, line),
{
    let once = appended(log, line);
    if !has_line_of(log, line.source_event_id) {
        assert(once[once.len() - 1].source_event_id == line.source_event_id);
    }
}

/// The log after the lines were appended, one by one.
pub open spec fn appended_all(log: Seq<TaskLogRow>, lines: Seq<NewTaskLogLine>) -> Seq<TaskLogRow>
    decreases lines.len(),
{
    if lines.len() == 0 {
        log
    } else {
        appended(appended_all(log, lines.drop_last()), lines.last())
    }
}

/// Every line carries the id of its event.
pub open spec fn of_events(lines: Seq<NewTaskLogLine>) -> bool {
    forall|i: int| 0 <= i < lines.len() ==> (#[trigger] lines[i]).source_event_id is Some
}

proof fn lemma_lines_stay(log: Seq<TaskLogRow>, lines: Seq<NewTaskLogLine>, event: Option<EventId>)
    requires
        has_line_of(log, event),
    ensures
        has_line_of(appended_all(log, lines), event),
    decreases lines.len(),
{
    if lines.len() > 0 {
        lemma_lines_stay(log, lines.drop_last(), event);
        let before = appended_all(log, lines.drop_last());
        let after = appended_all(log, lines);
        let i = choose|i: int|
            0 <= i < before.len() && (#[trigger] before[i]).source_event_id == event;
        assert(after[i] == before[i]);
    }
}

proof fn lemma_lines_are_there(log: Seq<TaskLogRow>, lines: Seq<NewTaskLogLine>, i: int)
    requires
        of_events(lines),
        0 <= i < lines.len(),
    ensures
        has_line_of(appended_all(log, lines), lines[i].source_event_id),
    decreases lines.len(),
{
    let rest = lines.drop_last();
    let before = appended_all(log, rest);
    let after = appended_all(log, lines);
    assert(lines[i].source_event_id is Some);
    if i == lines.len() - 1 {
        if !has_line_of(before, lines.last().source_event_id) {
            assert(after[after.len() - 1].source_event_id == lines.last().source_event_id);
        }
    } else {
        assert(of_events(rest)) by {
            assert forall|k: int| 0 <= k < rest.len() implies (
            #[trigger] rest[k]).source_event_id is Some by {
                assert(rest[k] == lines[k]);
            }
        }
        lemma_lines_are_there(log, rest, i);
        assert(rest[i] == lines[i]);
        let k = choose|k: int|
            0 <= k < before.len() && (#[trigger] before[k]).source_event_id
                == lines[i].source_event_id;
        assert(after[k] == before[k]);
    }
}

proof fn lemma_known_lines(log: Seq<TaskLogRow>, lines: Seq<NewTaskLogLine>)
    requires
        forall|i: int|
            0 <= i < lines.len() ==> has_line_of(log, (#[trigger] lines[i]).source_event_id),
    ensures
        appended_all(log, lines) == log,
    decreases lines.len(),
{
    if lines.len() > 0 {
        let rest = lines.drop_last();
        assert forall|i: int| 0 <= i < rest.len() implies has_line_of(
            log,
            (#[trigger] rest[i]).source_event_id,
        ) by {
            assert(rest[i] == lines[i]);
        }
        lemma_known_lines(log, rest);
        assert(has_line_of(log, lines[lines.len() - 1].source_event_id));
    }
}

/// Appending a batch of events' lines once more leaves the log as it was, whatever
/// was appended since.
pub proof fn law_replaying_a_batch_changes_nothing(
    log: Seq<TaskLogRow>,
    lines: Seq<NewTaskLogLine>,
    more: Seq<NewTaskLogLine>,
)
    requires
        of_events(lines),
    ensures
        ({
            let now = appended_all(appended_all(log, lines), more);
            appended_all(now, lines) == now
        }),
{
    let once = appended_all(log, lines);
    let now = appended_all(once, more);
    assert forall|i: int| 0 <= i < lines.len() implies has_line_of(
        now,
        (#[trigger] lines[i]).source_event_id,
    ) by {
        lemma_lines_are_there(log, lines, i);
        lemma_lines_stay(once, more, lines[i].source_event_id);
    }
    lemma_known_lines(now, lines);
}

proof fn lemma_appended_parts(
    log: Seq<TaskLogRow>,
    first: Seq<NewTaskLogLine>,
    rest: Seq<NewTaskLogLine>,
)
    ensures
        appended_all(log, first + rest) == appended_all(appended_all(log, first), rest),
    decreases rest.len(),
{
    if rest.len() == 0 {
        assert(first + rest =~= first);
    } else {
        lemma_appended_parts(log, first, rest.drop_last());
        assert((first + rest).drop_last() =~= first + rest.drop_last());
    }
}

/// A run that was cut off and goes on from an earlier place leads to the same log as
/// one that was not: `done` lines were appended, and the appending goes on from the
/// one at `from`.
pub proof fn law_a_rebuild_gives_the_same_log(
    log: Seq<TaskLogRow>,
    lines: Seq<NewTaskLogLine>,
    from: int,
    done: int,
)
    requires
        of_events(lines),
        0 <= from <= done <= lines.len(),
    ensures
        appended_all(
            appended_all(log, lines.subrange(0, done)),
            lines.subrange(from, lines.len() as int),
        ) == appended_all(log, lines),
{
    let head = lines.subrange(0, from);
    let batch = lines.subrange(from, done);
    let rest = lines.subrange(done, lines.len() as int);
    let none = Seq::<NewTaskLogLine>::empty();
    assert(lines.subrange(0, done) =~= head + batch);
    assert(lines.subrange(from, lines.len() as int) =~= batch + rest);
    assert(lines =~= (head + batch) + rest);
    lemma_appended_parts(log, head, batch);
    let before = appended_all(log, head);
    let now = appended_all(before, batch);
    assert(of_events(batch)) by {
        assert forall|i: int| 0 <= i < batch.len() implies (
        #[trigger] batch[i]).source_event_id is Some by {
            assert(batch[i] == lines[from + i]);
        }
    }
    law_replaying_a_batch_changes_nothing(before, batch, none);
    assert(appended_all(now, none) == now);
    lemma_appended_parts(now, batch, rest);
    lemma_appended_parts(log, head + batch, rest);
}

/// A line is added under the number behind the last one, as it was given; a line
/// of an event that has one already is not, and uses up no number.
pub proof fn law_a_line_gets_the_next_number(
    line: NewTaskLogLine,
    head: Option<i64>,
    known: bool,
    r: Result<Option<TaskLogRow>, ProjectionError>,
)
    requires
        line_appended(line, head, known, r),
        head matches Some(n) ==> n < i64::MAX,
    ensures
        known && line.source_event_id is Some <==> r == Ok::<Option<TaskLogRow>, ProjectionError>(
            None,
        ),
        !known || line.source_event_id is None ==> (r matches Ok(Some(row)) && {
            &&& head is None ==> row.seq == 1
            &&& head matches Some(n) ==> row.seq == n + 1
            &&& row.task_id == line.task_id && row.attempt == line.attempt && row.at == line.at
                && row.kind == line.kind && row.payload == line.payload && row.run_id == line.run_id
                && row.attempt_id == line.attempt_id && row.source_event_id == line.source_event_id
        }),
{
}

/// Every event of a task gets a system line of its own: of its task and run, at
/// its time, with its payload and its id. The events of an attempt stand under the
/// attempt's number, the others under that of the task itself.
pub proof fn law_every_event_gets_a_line(
    event: TaskEvent,
    payload: String,
    meta: EventMeta,
    number: Option<i32>,
    line: NewTaskLogLine,
)
    requires
        event_line(event, payload, meta, number, line),
    ensures
        line.task_id == meta.aggregate_id,
        line.run_id == Some(meta.run_id),
        line.at == meta.occurred_at,
        line.payload == payload,
        line.kind@ == "system"@,
        line.source_event_id == Some(meta.event_id),
        event matches TaskEvent::AttemptStarted { attempt_id, attempt_no, .. } ==> line.attempt
            == attempt_no && line.attempt_id == Some(attempt_id),
        event matches TaskEvent::Progressed { attempt_id, .. } ==> line.attempt_id == Some(
            attempt_id,
        ) && (number matches Some(n) ==> line.attempt == n),
        event matches TaskEvent::InputRequested { attempt_id, .. } ==> line.attempt_id == Some(
            attempt_id,
        ) && (number matches Some(n) ==> line.attempt == n),
        event matches TaskEvent::InputProvided { attempt_id } ==> line.attempt_id == Some(attempt_id)
            && (number matches Some(n) ==> line.attempt == n),
        event matches TaskEvent::AttemptSucceeded { attempt_id, .. } ==> line.attempt_id == Some(
            attempt_id,
        ) && (number matches Some(n) ==> line.attempt == n),
        event matches TaskEvent::AttemptFailed { attempt_id, .. } ==> line.attempt_id == Some(
            attempt_id,
        ) && (number matches Some(n) ==> line.attempt == n),
        event is Created || event is Routed || event is Retried || event is Cancelled
            || event is Skipped ==> line.attempt == 0 && line.attempt_id is None,
{
}

/// Lines are pruned by age: the cut lies the given number of days before now.
pub proof fn law_lines_are_pruned_by_age(now: Micros, days: u32)
    ensures
        cutoff_of(now, days) matches Some(c) ==> now - c == days * 24 * 60 * 60 * 1_000_000,
        cutoff_of(now, days) is Some <==> -8_334_601_228_800_000_000 <= now - days * 24 * 60 * 60
            * 1_000_000 <= 8_210_266_876_799_999_999,
{
}

/// The lock of a task is made of the first four bytes of its id: it fits its
/// column, and two tasks share it exactly where they share these bytes.
pub proof fn law_locks_follow_the_first_bytes(a: TaskId, b: TaskId)
    ensures
        i32::MIN <= lock_key_spec(a) <= i32::MAX,
        lock_key_spec(a) == lock_key_spec(b) <==> a as int / 0x1_0000_0000_0000_0000_0000_0000
            == b as int / 0x1_0000_0000_0000_0000_0000_0000,
{
}


} // verus!
