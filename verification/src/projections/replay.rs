//! Replays: what folding a batch of events once more does to a row.
use vstd::prelude::*;

verus! {

/// `rows` is what a row goes through while `events` are folded into it one by
/// one; `step` relates the row before and after an event.
pub open spec fn folded<R, E>(
    step: spec_fn(Option<R>, E, Option<R>) -> bool,
    rows: Seq<Option<R>>,
    events: Seq<E>,
) -> bool {
    &&& rows.len() == events.len() + 1
    &&& forall|i: int| 0 <= i < events.len() ==> step(rows[i], #[trigger] events[i], rows[i + 1])
}

/// The versions never go back.
pub open spec fn in_order<E>(events: Seq<E>, version: spec_fn(E) -> int) -> bool {
    forall|i: int, j: int|
        0 <= i <= j < events.len() ==> version(#[trigger] events[i]) <= version(
            #[trigger] events[j],
        )
}

/// A row is written at the event's version, stays as it is when the event is not
/// newer, never goes away, and is created by an event alone.
pub open spec fn versioned<R, E>(
    step: spec_fn(Option<R>, E, Option<R>) -> bool,
    row_version: spec_fn(R) -> int,
    version: spec_fn(E) -> int,
) -> bool {
    &&& forall|row: Option<R>, e: E, new: R| #[trigger]
        step(row, e, Some(new)) ==> row_version(new) >= version(e)
    &&& forall|row: R, e: E, new: Option<R>| #[trigger]
        step(Some(row), e, new) && row_version(row) >= version(e) ==> new == Some(row)
    &&& forall|row: R, e: E, new: Option<R>| #[trigger]
        step(Some(row), e, new) ==> new is Some
    &&& forall|e: E, new: Option<R>, other: Option<R>|
        #![trigger step(None, e, new), step(None, e, other)]
        step(None, e, new) && step(None, e, other) ==> (new is None <==> other is None)
}

proof fn lemma_rows_stay<R, E>(
    step: spec_fn(Option<R>, E, Option<R>) -> bool,
    row_version: spec_fn(R) -> int,
    version: spec_fn(E) -> int,
    rows: Seq<Option<R>>,
    events: Seq<E>,
    i: int,
    j: int,
)
    requires
        versioned(step, row_version, version),
        folded(step, rows, events),
        0 <= i <= j <= events.len(),
        rows[i] is Some,
    ensures
        rows[j] is Some,
    decreases j - i,
{
    if i < j {
        lemma_rows_stay(step, row_version, version, rows, events, i, j - 1);
        assert(step(rows[j - 1], events[j - 1], rows[j]));
        assert(rows[j - 1] == Some(rows[j - 1]->0));
    }
}

/// Folding a batch once more changes nothing.
pub proof fn lemma_replay<R, E>(
    step: spec_fn(Option<R>, E, Option<R>) -> bool,
    row_version: spec_fn(R) -> int,
    version: spec_fn(E) -> int,
    rows: Seq<Option<R>>,
    events: Seq<E>,
    again: Seq<Option<R>>,
    i: int,
)
    requires
        versioned(step, row_version, version),
        in_order(events, version),
        folded(step, rows, events),
        folded(step, again, events),
        again[0] == rows.last(),
        0 <= i <= events.len(),
    ensures
        again[i] == rows.last(),
    decreases i,
{
    if i > 0 {
        lemma_replay(step, row_version, version, rows, events, again, i - 1);
        let n = events.len() as int;
        assert(step(again[i - 1], events[i - 1], again[i]));
        assert(step(rows[n - 1], events[n - 1], rows[n]));
        if rows[n] is Some {
            assert(rows[n] == Some(rows[n]->0));
            assert(version(events[i - 1]) <= version(events[n - 1]));
        } else {
            assert(step(rows[i - 1], events[i - 1], rows[i]));
            if rows[i - 1] is Some {
                lemma_rows_stay(step, row_version, version, rows, events, i - 1, n);
            }
            if rows[i] is Some {
                lemma_rows_stay(step, row_version, version, rows, events, i, n);
            }
        }
    }
}

/// Rows that are the same stay the same under the same event.
pub open spec fn congruent<R, E>(
    step: spec_fn(Option<R>, E, Option<R>) -> bool,
    same: spec_fn(Option<R>, Option<R>) -> bool,
) -> bool {
    forall|a: Option<R>, b: Option<R>, e: E, x: Option<R>, y: Option<R>|
        #![trigger step(a, e, x), step(b, e, y)]
        step(a, e, x) && step(b, e, y) && same(a, b) ==> same(x, y)
}

/// Folding the same events from the same row leads to the same row.
pub proof fn lemma_rebuild<R, E>(
    step: spec_fn(Option<R>, E, Option<R>) -> bool,
    same: spec_fn(Option<R>, Option<R>) -> bool,
    rows: Seq<Option<R>>,
    again: Seq<Option<R>>,
    events: Seq<E>,
    i: int,
)
    requires
        congruent(step, same),
        folded(step, rows, events),
        folded(step, again, events),
        same(rows[0], again[0]),
        0 <= i <= events.len(),
    ensures
        same(rows[i], again[i]),
    decreases i,
{
    if i > 0 {
        lemma_rebuild(step, same, rows, again, events, i - 1);
        assert(step(rows[i - 1], events[i - 1], rows[i]));
        assert(step(again[i - 1], events[i - 1], again[i]));
    }
}

} // verus!
