//! Open and answered clarification questions.
use vstd::prelude::*;

use super::query::QuestionInboxRow;
use super::replay::{congruent, folded, in_order, lemma_rebuild, lemma_replay, versioned};
use super::{clamp_spec, position, version};
use crate::domain::{QuestionId, QuestionPolicy, QuestionStatus};
use crate::events::{EventMeta, QuestionEvent};
use crate::text::has_prefix;

verus! {

/// Projection name and checkpoint key.
pub const NAME: &'static str = "question_inbox";

/// Builds the question inbox from the events of questions.
#[derive(Debug, Clone, Copy, PartialEq, Eq, Structural)]
pub struct QuestionInbox;

/// The timeout of a policy in whole milliseconds, capped at the column.
pub open spec fn timeout_column(policy: QuestionPolicy) -> Option<i64> {
    match policy {
        QuestionPolicy::Block => None,
        QuestionPolicy::DefaultAfter { timeout } => Some(
            if timeout.total() / 1_000_000 > i64::MAX {
                i64::MAX
            } else {
                (timeout.total() / 1_000_000) as i64
            },
        ),
    }
}

/// The row already reflects this event or a later one.
pub open spec fn seen(r: QuestionInboxRow, m: EventMeta) -> bool {
    r.version >= clamp_spec(m.aggregate_version)
}

/// The row with the version, position and time of the event.
pub open spec fn stamped(r: QuestionInboxRow, m: EventMeta) -> QuestionInboxRow {
    QuestionInboxRow {
        version: clamp_spec(m.aggregate_version),
        last_position: clamp_spec(m.position),
        updated_at: m.occurred_at,
        ..r
    }
}

/// The row `r` after the event (which is newer than the row).
pub open spec fn step(r: QuestionInboxRow, e: QuestionEvent, m: EventMeta) -> QuestionInboxRow {
    match e {
        QuestionEvent::Asked { run_id, task_id, text, options, multi_select, default, policy } =>
        QuestionInboxRow {
            run_id,
            task_id,
            text,
            options,
            multi_select,
            default_answer: default,
            policy,
            timeout_ms: timeout_column(policy),
            status: QuestionStatus::Open,
            asked_at: m.occurred_at,
            ..stamped(r, m)
        },
        QuestionEvent::Answered { answer, answered_by } => QuestionInboxRow {
            status: QuestionStatus::Answered,
            answer: Some(answer),
            answered_by: Some(answered_by),
            answered_at: Some(m.occurred_at),
            ..stamped(r, m)
        },
        QuestionEvent::Expired { applied_default } => QuestionInboxRow {
            applied_default,
            status: if applied_default {
                r.status
            } else {
                QuestionStatus::Expired
            },
            ..stamped(r, m)
        },
    }
}

/// Nothing is filled in but what `Asked` sets.
pub open spec fn fresh(r: QuestionInboxRow, question: QuestionId) -> bool {
    &&& r.question_id == question
    &&& r.answer is None
    &&& r.answered_by is None
    &&& !r.applied_default
    &&& r.answered_at is None
}

/// What the table holds for `question` after the event.
pub open spec fn applied(
    row: Option<QuestionInboxRow>,
    question: QuestionId,
    e: QuestionEvent,
    m: EventMeta,
    new: Option<QuestionInboxRow>,
) -> bool {
    match row {
        Some(r) => if seen(r, m) {
            new == row
        } else {
            new == Some(step(r, e, m))
        },
        None => match e {
            QuestionEvent::Asked { .. } => new matches Some(n) && fresh(n, question) && n == step(
                n,
                e,
                m,
            ),
            _ => new is None,
        },
    }
}

/// The kind of a policy and its timeout in milliseconds.
pub fn policy_columns(policy: QuestionPolicy) -> (r: (&'static str, Option<i64>))
    ensures
        r.0@ == (match policy {
            QuestionPolicy::Block => "block"@,
            QuestionPolicy::DefaultAfter { .. } => "default_after"@,
        }),
        r.1 == timeout_column(policy),
{
    match policy {
        QuestionPolicy::Block => ("block", None),
        QuestionPolicy::DefaultAfter { timeout } => {
            let ms: u128 = timeout.as_millis();
            let column: i64 = if ms > 0x7fff_ffff_ffff_ffff {
                i64::MAX
            } else {
                ms as i64
            };
            ("default_after", Some(column))
        },
    }
}

impl QuestionInbox {
    /// A new projection.
    pub fn new() -> (r: QuestionInbox)
        ensures
            r == QuestionInbox,
    {
        QuestionInbox
    }

    /// Stable name.
    pub fn name(&self) -> (r: &'static str)
        ensures
            r@ == NAME@,
    {
        NAME
    }

    /// Whether the projection cares about `event_type`.
    pub fn handles(&self, event_type: &str) -> (b: bool)
        ensures
            b == has_prefix(event_type@, "question."@),
    {
        crate::text::starts_with(event_type, "question.")
    }

    /// Folds one event of `question` into its row.
    pub fn handle(
        &self,
        row: Option<QuestionInboxRow>,
        question: QuestionId,
        event: QuestionEvent,
        meta: &EventMeta,
    ) -> (r: Option<QuestionInboxRow>)
        ensures
            applied(row, question, event, *meta, r),
    {
        let row = match row {
            Some(row) => row,
            None => {
                return match event {
                    QuestionEvent::Asked {
                        run_id,
                        task_id,
                        text,
                        options,
                        multi_select,
                        default,
                        policy,
                    } => Some(
                        QuestionInboxRow {
                            question_id: question,
                            run_id,
                            task_id,
                            version: version(meta),
                            text,
                            options,
                            multi_select,
                            default_answer: default,
                            policy,
                            timeout_ms: policy_columns(policy).1,
                            status: QuestionStatus::Open,
                            answer: None,
                            answered_by: None,
                            applied_default: false,
                            asked_at: meta.occurred_at,
                            answered_at: None,
                            updated_at: meta.occurred_at,
                            last_position: position(meta),
                        },
                    ),
                    _ => None,
                };
            },
        };
        if row.version >= version(meta) {
            return Some(row);
        }
        let mut r = row;
        r.version = version(meta);
        r.last_position = position(meta);
        r.updated_at = meta.occurred_at;
        match event {
            QuestionEvent::Asked { run_id, task_id, text, options, multi_select, default, policy } => {
                r.run_id = run_id;
                r.task_id = task_id;
                r.text = text;
                r.options = options;
                r.multi_select = multi_select;
                r.default_answer = default;
                r.policy = policy;
                r.timeout_ms = policy_columns(policy).1;
                r.status = QuestionStatus::Open;
                r.asked_at = meta.occurred_at;
            },
            QuestionEvent::Answered { answer, answered_by } => {
                r.status = QuestionStatus::Answered;
                r.answer = Some(answer);
                r.answered_by = Some(answered_by);
                r.answered_at = Some(meta.occurred_at);
            },
            QuestionEvent::Expired { applied_default } => {
                r.applied_default = applied_default;
                if !applied_default {
                    r.status = QuestionStatus::Expired;
                }
            },
        }
        Some(r)
    }
}

/// Applying the same event twice is applying it once.
pub proof fn law_replay_changes_nothing(
    row: Option<QuestionInboxRow>,
    question: QuestionId,
    e: QuestionEvent,
    m: EventMeta,
    once: Option<QuestionInboxRow>,
    twice: Option<QuestionInboxRow>,
)
    requires
        applied(row, question, e, m, once),
        applied(once, question, e, m, twice),
    ensures
        twice == once,
{
}

/// An event at or below the version of the row changes nothing, whatever it is.
pub proof fn law_older_events_change_nothing(
    row: QuestionInboxRow,
    question: QuestionId,
    e: QuestionEvent,
    m: EventMeta,
    new: Option<QuestionInboxRow>,
)
    requires
        applied(Some(row), question, e, m, new),
        clamp_spec(m.aggregate_version) <= row.version,
    ensures
        new == Some(row),
{
}

/// An expiry that applied a default leaves the status to the answer that
/// follows it: asked, expired with a default, answered ends as answered, and
/// without a default as expired.
pub proof fn law_status_after_expiry(
    row: QuestionInboxRow,
    question: QuestionId,
    default: bool,
    m: EventMeta,
    new: QuestionInboxRow,
)
    requires
        row.status == QuestionStatus::Open,
        !seen(row, m),
        applied(Some(row), question, QuestionEvent::Expired { applied_default: default }, m, Some(new)),
    ensures
        default ==> new.status == QuestionStatus::Open,
        !default ==> new.status == QuestionStatus::Expired,
        new.applied_default == default,
{
}

/// How an event changes the row of `question`.
pub open spec fn fold_step(question: QuestionId) -> spec_fn(
    Option<QuestionInboxRow>,
    (QuestionEvent, EventMeta),
    Option<QuestionInboxRow>,
) -> bool {
    |row: Option<QuestionInboxRow>, e: (QuestionEvent, EventMeta), new: Option<QuestionInboxRow>| applied(row, question, e.0, e.1, new)
}

/// Folding a batch of events in their order once more leaves the row as it was,
/// wherever the batch began.
pub proof fn law_replaying_a_batch_changes_nothing(
    question: QuestionId,
    rows: Seq<Option<QuestionInboxRow>>,
    events: Seq<(QuestionEvent, EventMeta)>,
    again: Seq<Option<QuestionInboxRow>>,
)
    requires
        forall|i: int, j: int|
            0 <= i <= j < events.len() ==> (#[trigger] events[i]).1.aggregate_version <= (
            #[trigger] events[j]).1.aggregate_version,
        folded(fold_step(question), rows, events),
        folded(fold_step(question), again, events),
        again[0] == rows.last(),
    ensures
        forall|i: int| 0 <= i < again.len() ==> #[trigger] again[i] == rows.last(),
{
    let row_version = |r: QuestionInboxRow| r.version as int;
    let version = |e: (QuestionEvent, EventMeta)| clamp_spec(e.1.aggregate_version) as int;
    assert(in_order(events, version));
    assert(versioned(fold_step(question), row_version, version));
    assert forall|i: int| 0 <= i < again.len() implies #[trigger] again[i] == rows.last() by {
        lemma_replay(fold_step(question), row_version, version, rows, events, again, i);
    }
}

/// The two rows show the same.
pub open spec fn same_row(a: Option<QuestionInboxRow>, b: Option<QuestionInboxRow>) -> bool {
    a == b
}

/// A rebuild ends with the row that was there before: folding the same events from
/// an empty table a second time gives the same row after each of them.
pub proof fn law_a_rebuild_gives_the_same_row(
    question: QuestionId,
    rows: Seq<Option<QuestionInboxRow>>,
    again: Seq<Option<QuestionInboxRow>>,
    events: Seq<(QuestionEvent, EventMeta)>,
)
    requires
        folded(fold_step(question), rows, events),
        folded(fold_step(question), again, events),
        rows[0] is None,
        again[0] is None,
    ensures
        forall|i: int| 0 <= i < rows.len() ==> same_row(#[trigger] rows[i], again[i]),
{
    let same = |a: Option<QuestionInboxRow>, b: Option<QuestionInboxRow>| same_row(a, b);
    assert(congruent(fold_step(question), same));
    assert forall|i: int| 0 <= i < rows.len() implies same_row(#[trigger] rows[i], again[i]) by {
        lemma_rebuild(fold_step(question), same, rows, again, events, i);
    }
}

/// A question is open once it was asked, answered once it was answered, and
/// expired once its time was over without a default; an expiry that applied a
/// default leaves the answer standing.
pub proof fn law_the_status_follows_the_question(
    row: QuestionInboxRow,
    question: QuestionId,
    e: QuestionEvent,
    m: EventMeta,
    new: Option<QuestionInboxRow>,
)
    requires
        applied(Some(row), question, e, m, new),
        row.version < m.aggregate_version <= i64::MAX,
        m.position <= i64::MAX,
    ensures
        new is Some,
        new->0.version == m.aggregate_version,
        new->0.last_position == m.position,
        new->0.updated_at == m.occurred_at,
        new->0.question_id == row.question_id,
        e is Asked ==> new->0.status == QuestionStatus::Open && new->0.asked_at == m.occurred_at,
        e is Answered ==> new->0.status == QuestionStatus::Answered,
        e matches QuestionEvent::Expired { applied_default } ==> (applied_default ==> new->0.status
            == row.status && new->0.applied_default) && (!applied_default ==> new->0.status
            == QuestionStatus::Expired && !new->0.applied_default),
        !(e is Expired) ==> new->0.applied_default == row.applied_default,
        e matches QuestionEvent::Answered { answer, answered_by } ==> new->0.answer == Some(answer)
            && new->0.answered_by == Some(answered_by) && new->0.answered_at == Some(m.occurred_at),
        !(e is Answered) ==> new->0.answer == row.answer && new->0.answered_by == row.answered_by
            && new->0.answered_at == row.answered_at,
        !(e is Asked) ==> new->0.text == row.text && new->0.options == row.options
            && new->0.default_answer == row.default_answer && new->0.policy == row.policy
            && new->0.timeout_ms == row.timeout_ms && new->0.task_id == row.task_id
            && new->0.run_id == row.run_id && new->0.asked_at == row.asked_at
            && new->0.multi_select == row.multi_select,
{
}

/// Asking makes the row, open and unanswered, as the question was asked. No other
/// event makes one.
pub proof fn law_a_question_starts_its_row(
    question: QuestionId,
    e: QuestionEvent,
    m: EventMeta,
    new: Option<QuestionInboxRow>,
)
    requires
        applied(None, question, e, m, new),
    ensures
        new is Some <==> e is Asked,
        e matches QuestionEvent::Asked {
            run_id,
            task_id,
            text,
            options,
            multi_select,
            default,
            policy,
        } ==> {
            let n = new->0;
            &&& n.question_id == question && n.run_id == run_id && n.task_id == task_id
            &&& n.text == text && n.options == options && n.multi_select == multi_select
            &&& n.default_answer == default && n.policy == policy
            &&& n.status == QuestionStatus::Open
            &&& n.answer is None && n.answered_by is None && n.answered_at is None
            &&& !n.applied_default
            &&& n.asked_at == m.occurred_at
        },
{
}

/// A question that waits has no timeout; one with a default has its timeout in
/// whole milliseconds.
pub proof fn law_timeouts_are_shown_in_milliseconds(secs: u64, millis: u32)
    requires
        secs <= 9_000_000_000_000_000,
        millis < 1000,
    ensures
        timeout_column(QuestionPolicy::Block) is None,
        timeout_column(
            QuestionPolicy::DefaultAfter {
                timeout: crate::domain::Span { secs, nanos: (millis * 1_000_000) as u32 },
            },
        ) == Some((secs * 1000 + millis) as i64),
{
    let total = secs * 1_000_000_000 + millis * 1_000_000;
    assert(total / 1_000_000 == secs * 1000 + millis);
}

} // verus!
