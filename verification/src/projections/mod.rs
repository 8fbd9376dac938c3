//! Read models: each projection folds one event into the row (or rows) of its
//! table. Every fold is idempotent: an event that a row already reflects, or an
//! older one, leaves the row as it is.
use vstd::prelude::*;

pub mod artifacts;
pub mod cost_ledger;
pub mod query;
pub mod question_inbox;
pub mod replay;
pub mod run_overview;
pub mod runner;
pub mod task_board;
pub mod task_log;

use artifacts::Artifacts;
use cost_ledger::CostLedger;
use question_inbox::QuestionInbox;
use run_overview::RunOverview;
use task_board::TaskBoard;
use task_log::TaskLogProjection;

use crate::domain::Usage;
use crate::events::EventMeta;
use crate::money::Amount;
use crate::text::{chars_of, has_prefix, lines_of, prefix_of, same, trim_of};

verus! {

/// What can go wrong while projecting or querying a read model.
#[derive(Debug, PartialEq, Eq)]
pub enum ProjectionError {
    /// A column cannot hold the value.
    OutOfRange,
    /// No projection answers to this name.
    UnknownProjection { name: String },
    /// A cursor from a previous page could not be decoded.
    InvalidCursor { cursor: String },
}

// ---------------------------------------------------------------------------
// Registry
// ---------------------------------------------------------------------------
/// One of the read models.
#[derive(Debug, Clone, Copy, PartialEq, Eq, Structural)]
pub enum Projection {
    RunOverview(RunOverview),
    TaskBoard(TaskBoard),
    QuestionInbox(QuestionInbox),
    CostLedger(CostLedger),
    TaskLog(TaskLogProjection),
    Artifacts(Artifacts),
}

impl Projection {
    pub open spec fn key(self) -> Seq<char> {
        match self {
            Projection::RunOverview(_) => run_overview::NAME@,
            Projection::TaskBoard(_) => task_board::NAME@,
            Projection::QuestionInbox(_) => question_inbox::NAME@,
            Projection::CostLedger(_) => cost_ledger::NAME@,
            Projection::TaskLog(_) => task_log::NAME@,
            Projection::Artifacts(_) => artifacts::NAME@,
        }
    }

    /// The event types that the read model is built from.
    pub open spec fn wants(self, event_type: Seq<char>) -> bool {
        match self {
            Projection::RunOverview(_) => has_prefix(event_type, "run."@),
            Projection::TaskBoard(_) => has_prefix(event_type, "task."@),
            Projection::QuestionInbox(_) => has_prefix(event_type, "question."@),
            Projection::CostLedger(_) => event_type == "task.attempt_started"@ || event_type
                == "task.attempt_succeeded"@ || event_type == "task.attempt_failed"@,
            Projection::TaskLog(_) => has_prefix(event_type, "task."@),
            Projection::Artifacts(_) => event_type == "task.attempt_succeeded"@ || event_type
                == "run.integrated"@,
        }
    }

    /// Stable name, also the key of the checkpoint.
    pub fn name(&self) -> (r: &'static str)
        ensures
            r@ == self.key(),
    {
        match self {
            Projection::RunOverview(p) => p.name(),
            Projection::TaskBoard(p) => p.name(),
            Projection::QuestionInbox(p) => p.name(),
            Projection::CostLedger(p) => p.name(),
            Projection::TaskLog(p) => p.name(),
            Projection::Artifacts(p) => p.name(),
        }
    }

    /// Whether the read model cares about `event_type`.
    pub fn handles(&self, event_type: &str) -> (b: bool)
        ensures
            b == self.wants(event_type@),
    {
        match self {
            Projection::RunOverview(p) => p.handles(event_type),
            Projection::TaskBoard(p) => p.handles(event_type),
            Projection::QuestionInbox(p) => p.handles(event_type),
            Projection::CostLedger(p) => p.handles(event_type),
            Projection::TaskLog(p) => p.handles(event_type),
            Projection::Artifacts(p) => p.handles(event_type),
        }
    }
}

/// Every projection, in registry order.
pub open spec fn registry() -> Seq<Projection> {
    seq![
        Projection::RunOverview(RunOverview),
        Projection::TaskBoard(TaskBoard),
        Projection::QuestionInbox(QuestionInbox),
        Projection::CostLedger(CostLedger),
        Projection::TaskLog(TaskLogProjection),
        Projection::Artifacts(Artifacts),
    ]
}

/// Every projection, in registry order.
pub fn all() -> (r: Vec<Projection>)
    ensures
        r@ == registry(),
{
    let r: Vec<Projection> = vec![
        Projection::RunOverview(RunOverview::new()),
        Projection::TaskBoard(TaskBoard::new()),
        Projection::QuestionInbox(QuestionInbox::new()),
        Projection::CostLedger(CostLedger::new()),
        Projection::TaskLog(TaskLogProjection::new()),
        Projection::Artifacts(Artifacts::new()),
    ];
    assert(r@ =~= registry());
    r
}

/// The name of every projection, in registry order.
pub fn names() -> (r: Vec<&'static str>)
    ensures
        r@.len() == registry().len(),
        forall|i: int| 0 <= i < r@.len() ==> (#[trigger] r@[i])@ == registry()[i].key(),
{
    let all = all();
    let mut out: Vec<&'static str> = Vec::new();
    let mut i: usize = 0;
    while i < all.len()
        invariant
            i <= all@.len(),
            all@ == registry(),
            out@.len() == i,
            forall|k: int| 0 <= k < i ==> (#[trigger] out@[k])@ == registry()[k].key(),
        decreases all@.len() - i,
    {
        out.push(all[i].name());
        i = i + 1;
    }
    out
}

/// The projection called `name`.
pub fn by_name(name: &str) -> (r: Result<Projection, ProjectionError>)
    ensures
        match r {
            Ok(p) => registry().contains(p) && p.key() == name@,
            Err(e) => (forall|i: int|
                0 <= i < registry().len() ==> (#[trigger] registry()[i]).key() != name@) && (e matches
                ProjectionError::UnknownProjection { name: text } && text@ == name@),
        },
{
    let all = all();
    let mut i: usize = 0;
    while i < all.len()
        invariant
            i <= all@.len(),
            all@ == registry(),
            forall|k: int| 0 <= k < i ==> (#[trigger] registry()[k]).key() != name@,
        decreases all@.len() - i,
    {
        if same(all[i].name(), name) {
            assert(registry()[i as int] == all@[i as int]);
            return Ok(all[i]);
        }
        i = i + 1;
    }
    Err(ProjectionError::UnknownProjection { name: name.to_owned() })
}

/// No two projections share a name, so a name finds at most one of them.
pub proof fn law_names_are_distinct(i: int, j: int)
    requires
        0 <= i < registry().len(),
        0 <= j < registry().len(),
        registry()[i].key() == registry()[j].key(),
    ensures
        i == j,
{
    reveal_strlit("run_overview");
    reveal_strlit("task_board");
    reveal_strlit("question_inbox");
    reveal_strlit("cost_ledger");
    reveal_strlit("task_log");
    reveal_strlit("artifacts");
    assert("task_log"@[0] == 't');
    assert("run_overview"@.len() == 12 && "task_board"@.len() == 10 && "question_inbox"@.len() == 14
        && "cost_ledger"@.len() == 11 && "task_log"@.len() == 8 && "artifacts"@.len() == 9);
}

/// What went wrong, in words.
pub fn error_text(error: &ProjectionError) -> (r: String)
    ensures
        match *error {
            ProjectionError::OutOfRange => r@ == "read model column out of range"@,
            ProjectionError::UnknownProjection { name } => r@ == "unknown projection `"@ + name@
                + "` (known: run_overview, task_board, question_inbox, cost_ledger, task_log, artifacts)"@,
            ProjectionError::InvalidCursor { cursor } => r@ == "invalid pagination cursor `"@
                + cursor@ + "`"@,
        },
{
    match error {
        ProjectionError::OutOfRange => "read model column out of range".to_owned(),
        ProjectionError::UnknownProjection { name } => {
            let mut s = "unknown projection `".to_owned();
            s.append(name.as_str());
            s.append(
                "` (known: run_overview, task_board, question_inbox, cost_ledger, task_log, artifacts)",
            );
            s
        },
        ProjectionError::InvalidCursor { cursor } => {
            let mut s = "invalid pagination cursor `".to_owned();
            s.append(cursor.as_str());
            s.append("`");
            s
        },
    }
}

// ---------------------------------------------------------------------------
// Columns
// ---------------------------------------------------------------------------
/// `value` as a signed column, capped at the largest one.
pub open spec fn clamp_spec(value: u64) -> i64 {
    if value > i64::MAX {
        i64::MAX
    } else {
        value as i64
    }
}

/// `value` as a signed column, capped at the largest one.
pub fn clamp(value: u64) -> (r: i64)
    ensures
        r == clamp_spec(value),
{
    if value > 0x7fff_ffff_ffff_ffff {
        i64::MAX
    } else {
        value as i64
    }
}

/// The aggregate version as a column.
pub fn version(meta: &EventMeta) -> (r: i64)
    ensures
        r == clamp_spec(meta.aggregate_version),
{
    clamp(meta.aggregate_version)
}

/// The global position as a column.
pub fn position(meta: &EventMeta) -> (r: i64)
    ensures
        r == clamp_spec(meta.position),
{
    clamp(meta.position)
}

/// Usage split into the scalar columns every read model carries.
#[derive(Debug, Clone, Copy, PartialEq, Eq, Structural)]
pub struct UsageCols {
    pub input: i64,
    pub output: i64,
    pub cache_read: i64,
    pub cache_write: i64,
    pub wall_ms: i64,
    pub cost: Option<Amount>,
}

impl UsageCols {
    pub open spec fn of(usage: Usage) -> UsageCols {
        UsageCols {
            input: clamp_spec(usage.input_tokens),
            output: clamp_spec(usage.output_tokens),
            cache_read: clamp_spec(usage.cache_read_tokens),
            cache_write: clamp_spec(usage.cache_write_tokens),
            wall_ms: clamp_spec(usage.wall_ms),
            cost: usage.cost_usd,
        }
    }

    /// The columns of `usage`.
    pub fn new(usage: &Usage) -> (r: UsageCols)
        ensures
            r == UsageCols::of(*usage),
    {
        UsageCols {
            input: clamp(usage.input_tokens),
            output: clamp(usage.output_tokens),
            cache_read: clamp(usage.cache_read_tokens),
            cache_write: clamp(usage.cache_write_tokens),
            wall_ms: clamp(usage.wall_ms),
            cost: usage.cost_usd,
        }
    }

    /// The cost as the text that a numeric column takes.
    pub fn cost_text(&self) -> (r: Option<String>)
        requires
            self.cost matches Some(a) ==> a.wf(),
        ensures
            match (self.cost, r) {
                (Some(a), Some(t)) => t@ == crate::money::amount_text(
                    a.mantissa as int,
                    a.scale as nat,
                ),
                (None, None) => true,
                _ => false,
            },
    {
        match self.cost {
            Some(a) => Some(a.text()),
            None => None,
        }
    }
}

/// The sum, unless it leaves the column's range.
pub fn column_sum(a: i64, b: i64) -> (r: Option<i64>)
    ensures
        match r {
            Some(c) => c == a + b,
            None => a + b > i64::MAX || a + b < i64::MIN,
        },
{
    a.checked_add(b)
}

/// The first line of `s`, trimmed.
pub open spec fn headline(s: Seq<char>) -> Seq<char> {
    if lines_of(s).len() == 0 {
        trim_of(Seq::empty())
    } else {
        trim_of(lines_of(s)[0])
    }
}

/// The first line of `s`, trimmed, cut to `max` characters with an ellipsis as
/// the last of them.
pub open spec fn excerpt_of(s: Seq<char>, max: nat) -> Seq<char> {
    if headline(s).len() <= max {
        headline(s)
    } else if max == 0 {
        Seq::empty()
    } else {
        prefix_of(headline(s), (max - 1) as nat).push('…')
    }
}

/// Excerpt of `text` for list views: the first line, at most `max` characters.
pub fn excerpt(text: &str, max: usize) -> (r: String)
    ensures
        r@ == excerpt_of(text@, max as nat),
        r@.len() <= max,
{
    let all = crate::text::lines(text);
    let line = if all.len() == 0 {
        proof {
            assert(crate::text::views(all@).len() == 0);
            reveal_strlit("");
            assert(""@ =~= Seq::<char>::empty());
        }
        crate::text::trim("")
    } else {
        proof {
            assert(crate::text::views(all@)[0] == all@[0]@);
        }
        crate::text::trim(all[0].as_str())
    };
    let n: usize = chars_of(line.as_str()).len();
    if n <= max {
        return line;
    }
    if max == 0 {
        return crate::text::take(line.as_str(), 0);
    }
    let mut out = crate::text::take(line.as_str(), max - 1);
    out.push('…');
    out
}

/// A number is shown as it is where its column can hold it, and as the largest one
/// where not; the usage columns are the numbers of the usage, each its own.
pub proof fn law_columns_show_their_numbers(value: u64, usage: Usage)
    ensures
        value <= i64::MAX ==> clamp_spec(value) == value,
        value > i64::MAX ==> clamp_spec(value) == i64::MAX,
        usage.input_tokens <= i64::MAX ==> UsageCols::of(usage).input == usage.input_tokens,
        usage.output_tokens <= i64::MAX ==> UsageCols::of(usage).output == usage.output_tokens,
        usage.cache_read_tokens <= i64::MAX ==> UsageCols::of(usage).cache_read
            == usage.cache_read_tokens,
        usage.cache_write_tokens <= i64::MAX ==> UsageCols::of(usage).cache_write
            == usage.cache_write_tokens,
        usage.wall_ms <= i64::MAX ==> UsageCols::of(usage).wall_ms == usage.wall_ms,
        UsageCols::of(usage).cost == usage.cost_usd,
{
}

/// Every event of a run reaches the run list, every event of a task the task board
/// and the task log, every event of a question the inbox; starts and ends of
/// attempts reach the ledger, and what produces artifacts their table.
pub proof fn law_events_reach_their_read_models(name: Seq<char>)
    ensures
        Projection::RunOverview(RunOverview).wants("run."@ + name),
        Projection::TaskBoard(TaskBoard).wants("task."@ + name),
        Projection::TaskLog(TaskLogProjection).wants("task."@ + name),
        Projection::QuestionInbox(QuestionInbox).wants("question."@ + name),
        Projection::CostLedger(CostLedger).wants("task.attempt_started"@),
        Projection::CostLedger(CostLedger).wants("task.attempt_succeeded"@),
        Projection::CostLedger(CostLedger).wants("task.attempt_failed"@),
        Projection::Artifacts(Artifacts).wants("task.attempt_succeeded"@),
        Projection::Artifacts(Artifacts).wants("run.integrated"@),
{
    assert(("run."@ + name).subrange(0, "run."@.len() as int) =~= "run."@);
    assert(("task."@ + name).subrange(0, "task."@.len() as int) =~= "task."@);
    assert(("question."@ + name).subrange(0, "question."@.len() as int) =~= "question."@);
}

/// An excerpt never exceeds its width, shows a headline that fits as it is, and
/// cuts a longer one with an ellipsis at its end.
pub proof fn law_excerpts_keep_their_width(s: Seq<char>, max: nat)
    ensures
        excerpt_of(s, max).len() <= max,
        headline(s).len() <= max ==> excerpt_of(s, max) == headline(s),
        headline(s).len() > max && max > 0 ==> excerpt_of(s, max).len() == max && excerpt_of(
            s,
            max,
        ).last() == '…' && excerpt_of(s, max).drop_last() == headline(s).subrange(0, max - 1),
{
    if headline(s).len() > max && max > 0 {
        assert(excerpt_of(s, max).drop_last() =~= headline(s).subrange(0, max - 1));
    }
}

} // verus!
