//! Every artifact that a task attempt or the integration produced.
//!
//! Rows are keyed by the artifact's id, so taking an event again writes the
//! same values again.
use vstd::prelude::*;

use super::query::{ArtifactRow, Producer};
use super::{clamp, clamp_spec, position};
use crate::domain::{clone_text, ArtifactId, ArtifactRef, AttemptId, Micros, RunId, TaskId};
use crate::events::{EventMeta, RunEvent, TaskEvent};
use crate::text::same;

verus! {

/// Projection name and checkpoint key.
pub const NAME: &'static str = "artifacts";

/// Builds the artifact table from succeeded attempts and integrations.
#[derive(Debug, Clone, Copy, PartialEq, Eq, Structural)]
pub struct Artifacts;

/// Where an artifact comes from.
#[derive(Debug, Clone, Copy, PartialEq, Eq, Structural)]
pub struct Origin {
    pub run_id: RunId,
    pub task_id: Option<TaskId>,
    pub attempt_id: Option<AttemptId>,
    pub produced_by: Producer,
    pub at: Micros,
    pub position: i64,
}

/// The size as a column.
pub open spec fn bytes_column(bytes: Option<u64>) -> Option<i64> {
    match bytes {
        Some(n) => Some(clamp_spec(n)),
        None => None,
    }
}

/// The row with the values of a write; its id and the time it was first written
/// stay.
pub open spec fn overwritten(r: ArtifactRow, a: ArtifactRef, o: Origin) -> ArtifactRow {
    ArtifactRow {
        run_id: o.run_id,
        task_id: o.task_id,
        attempt_id: o.attempt_id,
        kind: a.kind,
        uri: a.uri,
        sha256: a.sha256,
        bytes: bytes_column(a.bytes),
        produced_by: o.produced_by,
        updated_at: o.at,
        last_position: o.position,
        ..r
    }
}

/// What the table holds under the artifact's id after it was written: rows that
/// a later event wrote stay, and a row keeps the time it was first written.
pub open spec fn inserted(row: Option<ArtifactRow>, a: ArtifactRef, o: Origin) -> ArtifactRow {
    match row {
        Some(r) => if r.last_position <= o.position {
            overwritten(r, a, o)
        } else {
            r
        },
        None => ArtifactRow {
            artifact_id: a.id,
            run_id: o.run_id,
            task_id: o.task_id,
            attempt_id: o.attempt_id,
            kind: a.kind,
            uri: a.uri,
            sha256: a.sha256,
            bytes: bytes_column(a.bytes),
            produced_by: o.produced_by,
            created_at: o.at,
            updated_at: o.at,
            last_position: o.position,
        },
    }
}

/// Writes one artifact.
pub fn insert(row: Option<ArtifactRow>, artifact: &ArtifactRef, origin: Origin) -> (r: ArtifactRow)
    ensures
        r == inserted(row, *artifact, origin),
{
    let bytes = match artifact.bytes {
        Some(n) => Some(clamp(n)),
        None => None,
    };
    match row {
        Some(row) => {
            let mut r = row;
            if r.last_position <= origin.position {
                r.run_id = origin.run_id;
                r.task_id = origin.task_id;
                r.attempt_id = origin.attempt_id;
                r.kind = artifact.kind;
                r.uri = artifact.uri.clone();
                r.sha256 = clone_text(&artifact.sha256);
                r.bytes = bytes;
                r.produced_by = origin.produced_by;
                r.updated_at = origin.at;
                r.last_position = origin.position;
            }
            r
        },
        None => ArtifactRow {
            artifact_id: artifact.id,
            run_id: origin.run_id,
            task_id: origin.task_id,
            attempt_id: origin.attempt_id,
            kind: artifact.kind,
            uri: artifact.uri.clone(),
            sha256: clone_text(&artifact.sha256),
            bytes,
            produced_by: origin.produced_by,
            created_at: origin.at,
            updated_at: origin.at,
            last_position: origin.position,
        },
    }
}

/// The artifacts that a task's event writes and where they come from.
pub open spec fn task_writes(e: TaskEvent, m: EventMeta) -> (Seq<ArtifactRef>, Origin) {
    let origin = Origin {
        run_id: m.run_id,
        task_id: Some(m.aggregate_id),
        attempt_id: match e {
            TaskEvent::AttemptSucceeded { attempt_id, .. } => Some(attempt_id),
            _ => None,
        },
        produced_by: Producer::Task,
        at: m.occurred_at,
        position: clamp_spec(m.position),
    };
    match e {
        TaskEvent::AttemptSucceeded { artifacts, .. } => (artifacts@, origin),
        _ => (Seq::empty(), origin),
    }
}

/// The artifacts that a run's event writes and where they come from.
pub open spec fn run_writes(e: RunEvent, m: EventMeta) -> (Seq<ArtifactRef>, Origin) {
    let origin = Origin {
        run_id: m.run_id,
        task_id: None,
        attempt_id: None,
        produced_by: Producer::Run,
        at: m.occurred_at,
        position: clamp_spec(m.position),
    };
    match e {
        RunEvent::Integrated { artifacts, .. } => (artifacts@, origin),
        _ => (Seq::empty(), origin),
    }
}

fn copy_artifacts(artifacts: &Vec<ArtifactRef>) -> (r: Vec<ArtifactRef>)
    ensures
        r@ == artifacts@,
{
    let mut out: Vec<ArtifactRef> = Vec::new();
    let mut i: usize = 0;
    while i < artifacts.len()
        invariant
            i <= artifacts@.len(),
            out@ == artifacts@.subrange(0, i as int),
        decreases artifacts@.len() - i,
    {
        out.push(artifacts[i].clone());
        i = i + 1;
        assert(out@ =~= artifacts@.subrange(0, i as int));
    }
    assert(artifacts@.subrange(0, artifacts@.len() as int) =~= artifacts@);
    out
}

impl Artifacts {
    /// A new projection.
    pub fn new() -> (r: Artifacts)
        ensures
            r == Artifacts,
    {
        Artifacts
    }

    /// Stable name.
    pub fn name(&self) -> (r: &'static str)
        ensures
            r@ == NAME@,
    {
        NAME
    }

    /// Whether the projection cares about `event_type`.
    pub fn handles(&self, event_type: &str) -> (b: bool)
        ensures
            b == (event_type@ == "task.attempt_succeeded"@ || event_type@ == "run.integrated"@),
    {
        same(event_type, "task.attempt_succeeded") || same(event_type, "run.integrated")
    }

    /// The artifacts to [`insert`] for a task's event, in order.
    pub fn handle_task(&self, event: &TaskEvent, meta: &EventMeta) -> (r: (
        Vec<ArtifactRef>,
        Origin,
    ))
        ensures
            (r.0@, r.1) == task_writes(*event, *meta),
    {
        let mut origin = Origin {
            run_id: meta.run_id,
            task_id: Some(meta.aggregate_id),
            attempt_id: None,
            produced_by: Producer::Task,
            at: meta.occurred_at,
            position: position(meta),
        };
        match event {
            TaskEvent::AttemptSucceeded { attempt_id, artifacts, .. } => {
                origin.attempt_id = Some(*attempt_id);
                (copy_artifacts(artifacts), origin)
            },
            _ => {
                let none: Vec<ArtifactRef> = Vec::new();
                assert(none@ =~= Seq::empty());
                (none, origin)
            },
        }
    }

    /// The artifacts to [`insert`] for a run's event, in order.
    pub fn handle_run(&self, event: &RunEvent, meta: &EventMeta) -> (r: (Vec<ArtifactRef>, Origin))
        ensures
            (r.0@, r.1) == run_writes(*event, *meta),
    {
        let origin = Origin {
            run_id: meta.run_id,
            task_id: None,
            attempt_id: None,
            produced_by: Producer::Run,
            at: meta.occurred_at,
            position: position(meta),
        };
        match event {
            RunEvent::Integrated { artifacts, .. } => (copy_artifacts(artifacts), origin),
            _ => {
                let none: Vec<ArtifactRef> = Vec::new();
                assert(none@ =~= Seq::empty());
                (none, origin)
            },
        }
    }
}

/// Writing the same artifact twice is writing it once.
pub proof fn law_replay_changes_nothing(row: Option<ArtifactRow>, a: ArtifactRef, o: Origin)
    ensures
        inserted(Some(inserted(row, a, o)), a, o) == inserted(row, a, o),
{
}

/// A row never moves back to an earlier position, and its id and first time stay.
pub proof fn law_position_never_goes_back(row: ArtifactRow, a: ArtifactRef, o: Origin)
    ensures
        inserted(Some(row), a, o).last_position >= row.last_position,
        inserted(Some(row), a, o).created_at == row.created_at,
        inserted(Some(row), a, o).artifact_id == row.artifact_id,
{
}

/// An older event changes nothing.
pub proof fn law_older_events_change_nothing(row: ArtifactRow, a: ArtifactRef, o: Origin)
    requires
        o.position < row.last_position,
    ensures
        inserted(Some(row), a, o) == row,
{
}

/// One write of an artifact.
pub ghost struct Write {
    pub artifact: ArtifactRef,
    pub origin: Origin,
}

/// The row of an artifact, where there is one.
pub open spec fn row_of(table: Map<ArtifactId, ArtifactRow>, id: ArtifactId) -> Option<
    ArtifactRow,
> {
    if table.contains_key(id) {
        Some(table[id])
    } else {
        None
    }
}

/// The table after the writes, one by one.
pub open spec fn written(table: Map<ArtifactId, ArtifactRow>, writes: Seq<Write>) -> Map<
    ArtifactId,
    ArtifactRow,
>
    decreases writes.len(),
{
    if writes.len() == 0 {
        table
    } else {
        let before = written(table, writes.drop_last());
        let w = writes.last();
        before.insert(
            w.artifact.id,
            inserted(row_of(before, w.artifact.id), w.artifact, w.origin),
        )
    }
}

/// The writes of one event.
pub open spec fn writes_of(artifacts: Seq<ArtifactRef>, origin: Origin) -> Seq<Write> {
    artifacts.map_values(|artifact: ArtifactRef| Write { artifact, origin })
}

/// The positions never go back.
pub open spec fn in_position_order(writes: Seq<Write>) -> bool {
    forall|i: int, j: int|
        0 <= i <= j < writes.len() ==> (#[trigger] writes[i]).origin.position <= (
        #[trigger] writes[j]).origin.position
}

/// What becomes of the row of one artifact under the writes.
spec fn row_after(row: Option<ArtifactRow>, writes: Seq<Write>, id: ArtifactId) -> Option<
    ArtifactRow,
>
    decreases writes.len(),
{
    if writes.len() == 0 {
        row
    } else {
        let before = row_after(row, writes.drop_last(), id);
        let w = writes.last();
        if w.artifact.id == id {
            Some(inserted(before, w.artifact, w.origin))
        } else {
            before
        }
    }
}

proof fn lemma_row_after(table: Map<ArtifactId, ArtifactRow>, writes: Seq<Write>, id: ArtifactId)
    ensures
        row_of(written(table, writes), id) == row_after(row_of(table, id), writes, id),
    decreases writes.len(),
{
    if writes.len() > 0 {
        lemma_row_after(table, writes.drop_last(), id);
    }
}

/// No write is newer than the position.
spec fn bounded(writes: Seq<Write>, position: i64) -> bool {
    forall|i: int| 0 <= i < writes.len() ==> (#[trigger] writes[i]).origin.position <= position
}

/// A row at or above the positions of the writes keeps its position, its id and its
/// first time, and one above them is not touched at all.
proof fn lemma_settled_row(row: ArtifactRow, writes: Seq<Write>, id: ArtifactId, position: i64)
    requires
        bounded(writes, position),
        position <= row.last_position,
    ensures
        row_after(Some(row), writes, id) matches Some(r) && r.last_position == row.last_position
            && r.artifact_id == row.artifact_id && r.created_at == row.created_at,
        position < row.last_position ==> row_after(Some(row), writes, id) == Some(row),
    decreases writes.len(),
{
    if writes.len() > 0 {
        let before = writes.drop_last();
        assert forall|i: int| 0 <= i < before.len() implies (
        #[trigger] before[i]).origin.position <= position by {
            assert(before[i] == writes[i]);
        }
        lemma_settled_row(row, before, id, position);
        assert(writes[writes.len() - 1].origin.position <= position);
    }
}

proof fn lemma_row_again(row: Option<ArtifactRow>, writes: Seq<Write>, id: ArtifactId)
    requires
        in_position_order(writes),
    ensures
        ({
            let once = row_after(row, writes, id);
            row_after(once, writes, id) == once
        }),
    decreases writes.len(),
{
    if writes.len() > 0 {
        let before = writes.drop_last();
        let w = writes.last();
        assert(in_position_order(before)) by {
            assert forall|i: int, j: int| 0 <= i <= j < before.len() implies (
            #[trigger] before[i]).origin.position <= (#[trigger] before[j]).origin.position by {
                assert(before[i] == writes[i] && before[j] == writes[j]);
            }
        }
        if w.artifact.id == id {
            let r = inserted(row_after(row, before, id), w.artifact, w.origin);
            assert(bounded(before, w.origin.position)) by {
                assert forall|i: int| 0 <= i < before.len() implies (
                #[trigger] before[i]).origin.position <= w.origin.position by {
                    assert(before[i] == writes[i]);
                    assert(writes[writes.len() - 1] == w);
                }
            }
            lemma_settled_row(r, before, id, w.origin.position);
            let y = row_after(Some(r), before, id)->0;
            if r.last_position == w.origin.position {
                assert(overwritten(y, w.artifact, w.origin) == overwritten(
                    r,
                    w.artifact,
                    w.origin,
                ));
                assert(overwritten(r, w.artifact, w.origin) == r);
            }
        } else {
            lemma_row_again(row, before, id);
        }
    }
}

/// Later writes leave a row as it is, or move it past the position.
proof fn lemma_later_writes(
    row: Option<ArtifactRow>,
    more: Seq<Write>,
    id: ArtifactId,
    position: i64,
)
    requires
        forall|i: int| 0 <= i < more.len() ==> (#[trigger] more[i]).origin.position > position,
    ensures
        row_after(row, more, id) == row || (row_after(row, more, id) matches Some(r)
            && r.last_position > position),
    decreases more.len(),
{
    if more.len() > 0 {
        let before = more.drop_last();
        assert forall|i: int| 0 <= i < before.len() implies (
        #[trigger] before[i]).origin.position > position by {
            assert(before[i] == more[i]);
        }
        lemma_later_writes(row, before, id, position);
        assert(more[more.len() - 1].origin.position > position);
    }
}

/// Writing a batch once more leaves the table as it was, also where later events
/// were written since: what a crash or a redelivery brings again is absorbed.
pub proof fn law_replaying_a_batch_changes_nothing(
    table: Map<ArtifactId, ArtifactRow>,
    writes: Seq<Write>,
    more: Seq<Write>,
)
    requires
        in_position_order(writes),
        forall|i: int, j: int|
            0 <= i < writes.len() && 0 <= j < more.len() ==> (
            #[trigger] writes[i]).origin.position < (#[trigger] more[j]).origin.position,
    ensures
        ({
            let now = written(written(table, writes), more);
            written(now, writes) == now
        }),
{
    let once = written(table, writes);
    let now = written(once, more);
    let again = written(now, writes);
    assert forall|id: ArtifactId| row_of(again, id) == #[trigger] row_of(now, id) by {
        lemma_row_after(table, writes, id);
        lemma_row_after(once, more, id);
        lemma_row_after(now, writes, id);
        lemma_row_again(row_of(table, id), writes, id);
        if writes.len() > 0 {
            let last = writes[writes.len() - 1].origin.position;
            assert(bounded(writes, last));
            lemma_later_writes(row_of(once, id), more, id, last);
            if let Some(r) = row_of(now, id) {
                if r.last_position > last {
                    lemma_settled_row(r, writes, id, last);
                }
            }
        }
    }
    assert forall|id: ArtifactId| #[trigger] again.contains_key(id) == now.contains_key(id)
        && (now.contains_key(id) ==> again[id] == now[id]) by {
        assert(row_of(again, id) == row_of(now, id));
    }
    assert(again =~= now);
}

/// Writing all artifacts of an event a second time leaves the table as it was.
pub proof fn law_replaying_an_event_changes_nothing(
    table: Map<ArtifactId, ArtifactRow>,
    artifacts: Seq<ArtifactRef>,
    origin: Origin,
)
    ensures
        ({
            let once = written(table, writes_of(artifacts, origin));
            written(once, writes_of(artifacts, origin)) == once
        }),
{
    let none = Seq::<Write>::empty();
    law_replaying_a_batch_changes_nothing(table, writes_of(artifacts, origin), none);
    let once = written(table, writes_of(artifacts, origin));
    assert(written(once, none) == once);
}

proof fn lemma_written_parts(
    table: Map<ArtifactId, ArtifactRow>,
    first: Seq<Write>,
    rest: Seq<Write>,
)
    ensures
        written(table, first + rest) == written(written(table, first), rest),
    decreases rest.len(),
{
    if rest.len() == 0 {
        assert(first + rest =~= first);
    } else {
        lemma_written_parts(table, first, rest.drop_last());
        assert((first + rest).drop_last() =~= first + rest.drop_last());
    }
}

/// A run that was cut off and goes on from an earlier place leads to the same table
/// as one that was not: `done` events were written, and the writing goes on from
/// the one at `from`.
pub proof fn law_a_rebuild_gives_the_same_table(
    table: Map<ArtifactId, ArtifactRow>,
    writes: Seq<Write>,
    from: int,
    done: int,
)
    requires
        in_position_order(writes),
        0 <= from <= done <= writes.len(),
    ensures
        written(
            written(table, writes.subrange(0, done)),
            writes.subrange(from, writes.len() as int),
        ) == written(table, writes),
{
    let head = writes.subrange(0, from);
    let batch = writes.subrange(from, done);
    let rest = writes.subrange(done, writes.len() as int);
    let none = Seq::<Write>::empty();
    assert(writes.subrange(0, done) =~= head + batch);
    assert(writes.subrange(from, writes.len() as int) =~= batch + rest);
    assert(writes =~= (head + batch) + rest);
    lemma_written_parts(table, head, batch);
    let before = written(table, head);
    let now = written(before, batch);
    assert(in_position_order(batch)) by {
        assert forall|i: int, j: int| 0 <= i <= j < batch.len() implies (
        #[trigger] batch[i]).origin.position <= (#[trigger] batch[j]).origin.position by {
            assert(batch[i] == writes[from + i] && batch[j] == writes[from + j]);
        }
    }
    law_replaying_a_batch_changes_nothing(before, batch, none);
    assert(written(now, none) == now);
    lemma_written_parts(now, batch, rest);
    lemma_written_parts(table, head + batch, rest);
}

/// The table takes every artifact of an attempt that succeeded, under its task and
/// attempt, and every artifact of an integration, under the run alone; no other
/// event writes any.
pub proof fn law_results_become_artifacts(t: TaskEvent, e: RunEvent, m: EventMeta)
    ensures
        t matches TaskEvent::AttemptSucceeded { attempt_id, artifacts, .. } ==> {
            let (items, o) = task_writes(t, m);
            items == artifacts@ && o.attempt_id == Some(attempt_id)
        },
        !(t is AttemptSucceeded) ==> task_writes(t, m).0.len() == 0,
        ({
            let o = task_writes(t, m).1;
            &&& o.run_id == m.run_id && o.task_id == Some(m.aggregate_id)
            &&& o.produced_by == Producer::Task && o.at == m.occurred_at
            &&& m.position <= i64::MAX ==> o.position == m.position
        }),
        e matches RunEvent::Integrated { artifacts, .. } ==> run_writes(e, m).0 == artifacts@,
        !(e is Integrated) ==> run_writes(e, m).0.len() == 0,
        ({
            let o = run_writes(e, m).1;
            &&& o.run_id == m.run_id && o.task_id is None && o.attempt_id is None
            &&& o.produced_by == Producer::Run && o.at == m.occurred_at
            &&& m.position <= i64::MAX ==> o.position == m.position
        }),
{
}

/// A written artifact is shown as it was handed in, with where it comes from; it
/// keeps the time of its first write.
pub proof fn law_an_artifact_is_shown_as_written(
    row: Option<ArtifactRow>,
    a: ArtifactRef,
    o: Origin,
)
    requires
        row matches Some(r) ==> r.last_position <= o.position && r.artifact_id == a.id,
    ensures
        ({
            let n = inserted(row, a, o);
            &&& n.artifact_id == a.id && n.kind == a.kind && n.uri == a.uri && n.sha256 == a.sha256
            &&& a.bytes is None ==> n.bytes is None
            &&& a.bytes matches Some(b) ==> b <= i64::MAX ==> n.bytes == Some(b as i64)
            &&& n.run_id == o.run_id && n.task_id == o.task_id && n.attempt_id == o.attempt_id
            &&& n.produced_by == o.produced_by && n.updated_at == o.at && n.last_position
                == o.position
            &&& row is None ==> n.created_at == o.at
            &&& row matches Some(r) ==> n.created_at == r.created_at
        }),
{
}

} // verus!
