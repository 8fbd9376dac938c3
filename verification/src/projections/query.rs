//! The rows of the read models, pagination and the cost report.
use vstd::prelude::*;

use crate::domain::{
    Answer, ArtifactId, ArtifactKind, ArtifactRef, AttemptFailure, AttemptId, Budget, EvaluationId,
    EventId, FailureClass, Micros, QuestionId, QuestionOption, QuestionPolicy, QuestionStatus, RepoKind,
    Route, RunId, RunMode, RunStatus, TaskId, TaskKind, TaskSpec, TaskStatus, Usage, Workspace,
};
use super::ProjectionError;
use crate::ids::{parse_uuid, uuid_parsed, uuid_text, uuid_text_of};
use crate::money::Amount;
use crate::text::{
    chars_of, decimal_of, find_char, first_of, is_digit, lemma_decimal_digits, lemma_first_of,
    lemma_parse_decimal, parse_i64, parse_i64_of, signed_decimal, signed_decimal_of, slice_of,
};
use chrono::{TimeZone, Utc};

verus! {

/// Page size of a query that sets none.
pub const DEFAULT_LIMIT: usize = 50;

/// Largest page a query can ask for.
pub const MAX_LIMIT: usize = 500;

/// [`DEFAULT_LIMIT`] as a column.
pub const DEFAULT_LIMIT_I64: i64 = 50;

/// A USD amount (`None` is unknown, which is not the same as zero).
#[derive(Debug, Clone, Copy, PartialEq, Eq, Structural)]
pub struct Usd(pub Option<Amount>);

impl Usd {
    pub open spec fn wf(self) -> bool {
        self.0 matches Some(a) ==> a.wf()
    }

    /// The amount, when known.
    pub fn get(self) -> (r: Option<Amount>)
        ensures
            r == self.0,
    {
        self.0
    }
}

// ---------------------------------------------------------------------------
// Pagination
// ---------------------------------------------------------------------------
/// The instants that `chrono` can hold: from the start of the year -262143 to
/// the end of the year 262142.
pub open spec fn valid_instant(micros: int) -> bool {
    -8_334_601_228_800_000_000 <= micros <= 8_210_266_876_799_999_999
}

/// `Utc.timestamp_micros`: it accepts exactly the instants in `chrono`'s range.
#[verifier::external_body]
fn chrono_accepts(micros: i64) -> (b: bool)
    ensures
        b == valid_instant(micros as int),
{
    Utc.timestamp_micros(micros).single().is_some()
}

/// Everything strictly older than this time and id.
#[derive(Debug, Clone, Copy, PartialEq, Eq, Structural)]
pub struct Cursor {
    /// Time of the last item of the previous page.
    pub at: Micros,
    /// Id of the last item of the previous page, to break ties.
    pub id: u128,
}

impl Cursor {
    /// The time is one that a clock can show.
    pub open spec fn wf(self) -> bool {
        valid_instant(self.at as int)
    }

    /// The string form: `<micros>.<uuid>`.
    pub open spec fn encoded(self) -> Seq<char> {
        signed_decimal_of(self.at as int) + seq!['.'] + uuid_text_of(self.id)
    }

    /// The cursor that `s` writes: a valid time before the first point, an
    /// identifier after it.
    pub open spec fn decoded(s: Seq<char>) -> Option<Cursor> {
        let dot = first_of(s, '.');
        if dot == s.len() {
            None
        } else {
            match (parse_i64_of(s.subrange(0, dot)), uuid_parsed(s.subrange(dot + 1, s.len() as int))) {
                (Some(at), Some(id)) => if valid_instant(at as int) {
                    Some(Cursor { at, id })
                } else {
                    None
                },
                _ => None,
            }
        }
    }

    /// A cursor.
    pub fn new(at: Micros, id: u128) -> (r: Cursor)
        ensures
            r == (Cursor { at, id }),
    {
        Cursor { at, id }
    }

    /// The opaque string form.
    pub fn encode(&self) -> (r: String)
        ensures
            r@ == self.encoded(),
    {
        let mut s = signed_decimal(self.at);
        s.push('.');
        let id = uuid_text(self.id);
        s.append(id.as_str());
        assert(s@ =~= self.encoded());
        s
    }

    /// Reads [`Cursor::encode`] back; what encoding wrote comes back as it was.
    pub fn decode(cursor: &str) -> (r: Result<Cursor, ProjectionError>)
        ensures
            match r {
                Ok(c) => Cursor::decoded(cursor@) == Some(c) && c.wf(),
                Err(e) => Cursor::decoded(cursor@) is None && (e matches ProjectionError::InvalidCursor {
                    cursor: text,
                } && text@ == cursor@),
            },
            forall|c: Cursor| c.wf() && cursor@ == #[trigger] c.encoded() ==> r == Ok::<
                Cursor,
                ProjectionError,
            >(c),
    {
        let v = chars_of(cursor);
        let dot: usize = find_char(&v, '.');
        proof {
            assert forall|c: Cursor| c.wf() && cursor@ == #[trigger] c.encoded() implies dot
                < v@.len() && parse_i64_of(v@.subrange(0, dot as int)) == Some(c.at)
                && v@.subrange(dot + 1, v@.len() as int) == uuid_text_of(c.id) by {
                lemma_encoded_parts(c);
            }
        }
        if dot == v.len() {
            return Err(ProjectionError::InvalidCursor { cursor: cursor.to_owned() });
        }
        let at: i64 = match parse_i64(&v, 0, dot) {
            Some(at) => at,
            None => {
                return Err(ProjectionError::InvalidCursor { cursor: cursor.to_owned() });
            },
        };
        if !chrono_accepts(at) {
            return Err(ProjectionError::InvalidCursor { cursor: cursor.to_owned() });
        }
        let tail = slice_of(&v, dot + 1, v.len());
        let id: u128 = match parse_uuid(tail.as_str()) {
            Some(id) => id,
            None => {
                return Err(ProjectionError::InvalidCursor { cursor: cursor.to_owned() });
            },
        };
        Ok(Cursor { at, id })
    }
}

/// Where the parts of an encoded cursor stand.
proof fn lemma_encoded_parts(c: Cursor)
    ensures
        ({
            let s = c.encoded();
            let dot = first_of(s, '.');
            &&& dot < s.len()
            &&& parse_i64_of(s.subrange(0, dot)) == Some(c.at)
            &&& s.subrange(dot + 1, s.len() as int) == uuid_text_of(c.id)
        }),
{
    let s = c.encoded();
    let head = signed_decimal_of(c.at as int);
    let m: nat = if c.at < 0 {
        (-(c.at as int)) as nat
    } else {
        c.at as nat
    };
    crate::text::lemma_decimal_digits(m);
    crate::text::lemma_parse_decimal(c.at);
    crate::text::lemma_first_of(s, '.');
    assert(s[head.len() as int] == '.');
    assert forall|i: int| 0 <= i < head.len() implies s[i] != '.' by {
        assert(s[i] == head[i]);
        if c.at < 0 {
            if i > 0 {
                assert(head[i] == crate::text::decimal_of(m)[i - 1]);
                assert(crate::text::is_digit(crate::text::decimal_of(m)[i - 1]));
            }
        } else {
            assert(crate::text::is_digit(crate::text::decimal_of(m)[i]));
        }
    }
    assert(first_of(s, '.') == head.len());
    assert(s.subrange(0, head.len() as int) =~= head);
    assert(s.subrange(head.len() as int + 1, s.len() as int) =~= uuid_text_of(c.id));
}

/// One page of rows and the cursor of the next one.
#[derive(Debug, PartialEq, Eq)]
pub struct Page<T> {
    pub items: Vec<T>,
    /// Where the next page starts, on a page that is full; one that is not is the
    /// last and has none.
    pub next_cursor: Option<String>,
}

impl<T> Page<T> {
    /// A page without rows.
    pub fn empty() -> (r: Page<T>)
        ensures
            r.items@.len() == 0,
            r.next_cursor is None,
    {
        Page { items: Vec::new(), next_cursor: None }
    }

    /// Number of rows.
    pub fn len(&self) -> (n: usize)
        ensures
            n == self.items@.len(),
    {
        self.items.len()
    }

    /// Whether the page has no rows.
    pub fn is_empty(&self) -> (b: bool)
        ensures
            b == (self.items@.len() == 0),
    {
        self.items.len() == 0
    }
}

/// The page size a query gets: the default where it sets none, never below one
/// and never above the largest.
pub open spec fn limit_of(limit: Option<usize>) -> int {
    match limit {
        None => DEFAULT_LIMIT as int,
        Some(n) => if n < 1 {
            1
        } else if n > MAX_LIMIT {
            MAX_LIMIT as int
        } else {
            n as int
        },
    }
}

/// The page size a query gets.
pub fn clamp_limit(limit: Option<usize>) -> (r: i64)
    ensures
        r == limit_of(limit),
        1 <= r <= MAX_LIMIT,
{
    match limit {
        None => DEFAULT_LIMIT_I64,
        Some(n) => if n < 1 {
            1
        } else if n > MAX_LIMIT {
            500
        } else {
            n as i64
        },
    }
}

/// A row that a cursor can point at.
pub trait Keyed {
    spec fn key(&self) -> Cursor;

    /// Cursor pointing at this row.
    fn cursor(&self) -> (c: Cursor)
        ensures
            c == self.key(),
    ;
}

/// The cursor of a page of `items`.
pub open spec fn pages_on<T: Keyed>(items: Seq<T>, limit: i64, next: Option<String>) -> bool {
    match next {
        Some(text) => items.len() == limit && items.len() > 0 && text@
            == items.last().key().encoded(),
        None => items.len() != limit || items.len() == 0,
    }
}

/// Wraps `items` in a page, with a cursor at the last one where the page is full.
pub fn page<T: Keyed>(items: Vec<T>, limit: i64) -> (r: Page<T>)
    ensures
        r.items == items,
        pages_on(items@, limit, r.next_cursor),
{
    let n: usize = items.len();
    let full = n > 0 && limit > 0 && (limit as u64) == (n as u64);
    let next_cursor = if full {
        Some(items[n - 1].cursor().encode())
    } else {
        None
    };
    Page { items, next_cursor }
}

// ---------------------------------------------------------------------------
// Rows
// ---------------------------------------------------------------------------
/// A row of the run overview.
#[derive(Debug, PartialEq, Eq)]
pub struct RunOverviewRow {
    pub run_id: RunId,
    /// Run aggregate version this row reflects.
    pub version: i64,
    pub status: RunStatus,
    pub goal_text: String,
    /// First line of the goal, for lists.
    pub goal_excerpt: String,
    pub cwd: String,
    pub repo_kind: RepoKind,
    pub mode: RunMode,
    pub requested_by: String,
    pub auto_approve_plans: bool,
    pub budget: Budget,
    /// `None` before any usage was rolled up.
    pub usage: Option<Usage>,
    pub cost_usd: Usd,
    pub input_tokens: i64,
    pub output_tokens: i64,
    pub cache_read_tokens: i64,
    pub cache_write_tokens: i64,
    pub wall_ms: i64,
    pub planner_route: Option<Route>,
    /// JSON text.
    pub understanding: Option<String>,
    /// JSON text.
    pub plan: Option<String>,
    pub plan_revision: i32,
    pub open_question_ids: Vec<QuestionId>,
    pub task_ids: Vec<TaskId>,
    pub tasks_total: i32,
    pub tasks_succeeded: i32,
    pub tasks_failed: i32,
    pub tasks_cancelled: i32,
    pub tasks_skipped: i32,
    pub evaluation_id: Option<EvaluationId>,
    /// IEEE bit pattern of the score.
    pub evaluation_overall: Option<u32>,
    pub evaluation_verdict: Option<String>,
    pub budget_exhausted: Option<String>,
    pub failure_reason: Option<String>,
    pub failure_class: Option<FailureClass>,
    pub failure_message: Option<String>,
    pub cancelled_by: Option<String>,
    pub cancel_reason: Option<String>,
    pub summary: Option<String>,
    pub artifacts: Vec<ArtifactRef>,
    pub created_at: Micros,
    pub updated_at: Micros,
    pub last_position: i64,
}

/// How an attempt stands.
#[derive(Debug, Clone, Copy, PartialEq, Eq, Structural)]
pub enum AttemptState {
    Running,
    AwaitingInput,
    Succeeded,
    Failed,
}

/// One attempt of a task, as the board shows it.
#[derive(Debug, PartialEq, Eq)]
pub struct AttemptRow {
    pub id: AttemptId,
    pub no: u16,
    pub route: Route,
    pub status: AttemptState,
    pub workspace: Workspace,
    pub worker_session_id: Option<String>,
    pub started_at: Micros,
    pub ended_at: Option<Micros>,
    pub usage: Usage,
    pub summary: Option<String>,
    pub failure: Option<AttemptFailure>,
    pub last_log_seq: u64,
    pub pending_question: Option<QuestionId>,
}

/// A row of the task board. The title, instructions, acceptance criteria and
/// dependencies are those of the spec; worker, model and effort those of the
/// route.
#[derive(Debug, PartialEq, Eq)]
pub struct TaskBoardRow {
    pub task_id: TaskId,
    pub run_id: RunId,
    /// Task aggregate version this row reflects.
    pub version: i64,
    /// Creation order within the run.
    pub seq: i32,
    pub kind: TaskKind,
    pub status: TaskStatus,
    pub spec: TaskSpec,
    pub budget: Budget,
    pub route: Option<Route>,
    /// JSON text.
    pub selection: Option<String>,
    /// In attempt order.
    pub attempts: Vec<AttemptRow>,
    pub attempt_count: i32,
    pub cost_usd: Usd,
    pub input_tokens: i64,
    pub output_tokens: i64,
    pub cache_read_tokens: i64,
    pub cache_write_tokens: i64,
    pub wall_ms: i64,
    pub artifacts: Vec<ArtifactRef>,
    pub summary: Option<String>,
    pub failure_class: Option<FailureClass>,
    pub failure_message: Option<String>,
    pub awaiting_question_id: Option<QuestionId>,
    pub started_at: Option<Micros>,
    pub ended_at: Option<Micros>,
    pub created_at: Micros,
    pub updated_at: Micros,
    pub last_position: i64,
}

/// A row of the question inbox.
#[derive(Debug, PartialEq, Eq)]
pub struct QuestionInboxRow {
    pub question_id: QuestionId,
    pub run_id: RunId,
    /// Asking task, when any.
    pub task_id: Option<TaskId>,
    /// Question aggregate version this row reflects.
    pub version: i64,
    pub text: String,
    pub options: Vec<QuestionOption>,
    pub multi_select: bool,
    pub default_answer: Option<Answer>,
    pub policy: QuestionPolicy,
    /// Timeout of a default, in milliseconds.
    pub timeout_ms: Option<i64>,
    pub status: QuestionStatus,
    pub answer: Option<Answer>,
    pub answered_by: Option<String>,
    /// Whether the answer came from the default on expiry.
    pub applied_default: bool,
    pub asked_at: Micros,
    pub answered_at: Option<Micros>,
    pub updated_at: Micros,
    pub last_position: i64,
}

/// A row of the cost ledger: one task attempt.
#[derive(Debug, PartialEq, Eq)]
pub struct CostLedgerRow {
    pub attempt_id: AttemptId,
    pub run_id: RunId,
    pub task_id: TaskId,
    /// Counts from one.
    pub attempt_no: i32,
    /// Task aggregate version this row reflects.
    pub version: i64,
    pub task_kind: String,
    pub worker: String,
    pub model_alias: String,
    pub effort: Option<String>,
    pub status: AttemptState,
    pub failure_class: Option<FailureClass>,
    pub input_tokens: i64,
    pub output_tokens: i64,
    pub cache_read_tokens: i64,
    pub cache_write_tokens: i64,
    pub cost_usd: Usd,
    pub wall_ms: i64,
    pub started_at: Micros,
    pub ended_at: Option<Micros>,
    pub updated_at: Micros,
    pub last_position: i64,
}

/// A line of the task log.
#[derive(Debug, PartialEq, Eq)]
pub struct TaskLogRow {
    pub task_id: TaskId,
    /// Zero for the lines of the task itself.
    pub attempt: i32,
    /// Strictly increasing within the task and attempt.
    pub seq: i64,
    pub at: Micros,
    pub kind: String,
    /// JSON text.
    pub payload: String,
    pub run_id: Option<RunId>,
    pub attempt_id: Option<AttemptId>,
    /// Domain event that produced the line, for the lines of the projection.
    pub source_event_id: Option<EventId>,
}

/// Who produced an artifact.
#[derive(Debug, Clone, Copy, PartialEq, Eq, Structural)]
pub enum Producer {
    Task,
    Run,
}

/// A row of the artifact table.
#[derive(Debug, PartialEq, Eq)]
pub struct ArtifactRow {
    pub artifact_id: ArtifactId,
    pub run_id: RunId,
    pub task_id: Option<TaskId>,
    pub attempt_id: Option<AttemptId>,
    pub kind: ArtifactKind,
    pub uri: String,
    pub sha256: Option<String>,
    pub bytes: Option<i64>,
    pub produced_by: Producer,
    pub created_at: Micros,
    pub updated_at: Micros,
    pub last_position: i64,
}

impl Keyed for RunOverviewRow {
    open spec fn key(&self) -> Cursor {
        Cursor { at: self.updated_at, id: self.run_id }
    }

    fn cursor(&self) -> (c: Cursor) {
        Cursor::new(self.updated_at, self.run_id)
    }
}

impl Keyed for TaskBoardRow {
    open spec fn key(&self) -> Cursor {
        Cursor { at: self.updated_at, id: self.task_id }
    }

    fn cursor(&self) -> (c: Cursor) {
        Cursor::new(self.updated_at, self.task_id)
    }
}

impl Keyed for QuestionInboxRow {
    open spec fn key(&self) -> Cursor {
        Cursor { at: self.asked_at, id: self.question_id }
    }

    fn cursor(&self) -> (c: Cursor) {
        Cursor::new(self.asked_at, self.question_id)
    }
}

impl Keyed for CostLedgerRow {
    open spec fn key(&self) -> Cursor {
        Cursor { at: self.started_at, id: self.attempt_id }
    }

    fn cursor(&self) -> (c: Cursor) {
        Cursor::new(self.started_at, self.attempt_id)
    }
}

// ---------------------------------------------------------------------------
// Queries
// ---------------------------------------------------------------------------
/// A list of runs.
#[derive(Debug, PartialEq, Eq)]
pub struct RunQuery {
    /// Keep only this status.
    pub status: Option<String>,
    /// From the `next_cursor` of a previous page.
    pub cursor: Option<String>,
    pub limit: Option<usize>,
}

/// A list of tasks.
#[derive(Debug, PartialEq, Eq)]
pub struct TaskQuery {
    /// Keep only tasks of this run.
    pub run_id: Option<RunId>,
    /// Keep only this status.
    pub status: Option<String>,
    pub cursor: Option<String>,
    pub limit: Option<usize>,
}

/// A list of questions.
#[derive(Debug, PartialEq, Eq)]
pub struct QuestionQuery {
    /// Keep only questions of this run.
    pub run_id: Option<RunId>,
    /// Keep only this status.
    pub status: Option<String>,
    pub cursor: Option<String>,
    pub limit: Option<usize>,
}

/// The cursor of a query, where it has one.
pub fn decode_cursor(cursor: &Option<String>) -> (r: Result<Option<Cursor>, ProjectionError>)
    ensures
        match (*cursor, r) {
            (None, Ok(c)) => c is None,
            (Some(s), Ok(c)) => c is Some && c == Cursor::decoded(s@),
            (None, Err(_)) => false,
            (Some(s), Err(e)) => Cursor::decoded(s@) is None && (e matches ProjectionError::InvalidCursor {
                cursor: text,
            } && text@ == s@),
        },
{
    match cursor {
        None => Ok(None),
        Some(s) => match Cursor::decode(s.as_str()) {
            Ok(c) => Ok(Some(c)),
            Err(e) => Err(e),
        },
    }
}

/// The lines of a task's log.
#[derive(Debug, Clone, Copy, PartialEq, Eq, Structural)]
pub struct TaskLogQuery {
    pub task_id: TaskId,
    /// Keep only this attempt.
    pub attempt: Option<i32>,
    /// Keep only lines with a higher number.
    pub after_seq: Option<u64>,
    pub limit: Option<usize>,
}

impl TaskLogQuery {
    /// Every line of `task_id`.
    pub fn new(task_id: TaskId) -> (r: TaskLogQuery)
        ensures
            r == (TaskLogQuery { task_id, attempt: None, after_seq: None, limit: None }),
    {
        TaskLogQuery { task_id, attempt: None, after_seq: None, limit: None }
    }

    /// The number after which lines are wanted, as a column: zero where none is
    /// set, and the largest that the column holds where it cannot hold it.
    pub fn after(&self) -> (r: i64)
        ensures
            r == (match self.after_seq {
                Some(n) => if n > i64::MAX {
                    i64::MAX as int
                } else {
                    n as int
                },
                None => 0,
            }),
            forall|seq: i64| seq > 0 ==> (#[trigger] self.wants(seq) <==> seq > r),
    {
        match self.after_seq {
            Some(n) => if n > 0x7fff_ffff_ffff_ffff {
                0x7fff_ffff_ffff_ffff
            } else {
                n as i64
            },
            None => 0,
        }
    }

    /// A line with this number is wanted.
    pub open spec fn wants(self, seq: i64) -> bool {
        self.after_seq matches Some(n) ==> seq > n
    }
}

/// Wraps log lines in a page; the cursor of a full page is its last number.
pub fn log_page(items: Vec<TaskLogRow>, limit: i64) -> (r: Page<TaskLogRow>)
    ensures
        r.items == items,
        match r.next_cursor {
            Some(text) => items@.len() == limit && items@.len() > 0 && text@ == signed_decimal_of(
                items@.last().seq as int,
            ),
            None => items@.len() != limit || items@.len() == 0,
        },
{
    let n: usize = items.len();
    let full = n > 0 && limit > 0 && (limit as u64) == (n as u64);
    let next_cursor = if full {
        Some(signed_decimal(items[n - 1].seq))
    } else {
        None
    };
    Page { items, next_cursor }
}

// ---------------------------------------------------------------------------
// Cost
// ---------------------------------------------------------------------------
/// How the cost report groups the ledger.
#[derive(Debug, Clone, Copy, PartialEq, Eq, Structural)]
pub enum CostGroupBy {
    Run,
    Model,
    Kind,
}

impl Default for CostGroupBy {
    fn default() -> (r: Self)
        ensures
            r == CostGroupBy::Run,
    {
        CostGroupBy::Run
    }
}

impl CostGroupBy {
    /// The `snake_case` name.
    pub fn as_str(self) -> (r: &'static str)
        ensures
            r@ == (match self {
                CostGroupBy::Run => "run"@,
                CostGroupBy::Model => "model"@,
                CostGroupBy::Kind => "kind"@,
            }),
    {
        match self {
            CostGroupBy::Run => "run",
            CostGroupBy::Model => "model",
            CostGroupBy::Kind => "kind",
        }
    }

    /// The column of the ledger that makes the groups.
    pub fn column(self) -> (r: &'static str)
        ensures
            r@ == (match self {
                CostGroupBy::Run => "run_id::text"@,
                CostGroupBy::Model => "model_alias"@,
                CostGroupBy::Kind => "task_kind"@,
            }),
    {
        match self {
            CostGroupBy::Run => "run_id::text",
            CostGroupBy::Model => "model_alias",
            CostGroupBy::Kind => "task_kind",
        }
    }
}

/// What the cost report covers.
#[derive(Debug, Clone, Copy, PartialEq, Eq, Structural)]
pub struct CostQuery {
    /// Keep only attempts started at or after this time.
    pub since: Option<Micros>,
    /// Keep only this run.
    pub run_id: Option<RunId>,
    pub group_by: CostGroupBy,
}

/// One group of the cost report.
#[derive(Debug, PartialEq, Eq)]
pub struct CostRow {
    /// Run id, model alias or task kind.
    pub key: String,
    pub usd: Option<Amount>,
    pub input_tokens: i64,
    pub output_tokens: i64,
    pub attempts: i64,
}

/// The grouped cost report.
#[derive(Debug, PartialEq, Eq)]
pub struct CostReport {
    pub total_usd: Option<Amount>,
    /// Input and output tokens.
    pub total_tokens: i64,
    pub rows: Vec<CostRow>,
}

/// The known amounts of the groups, added up in order: unknown where none is
/// known; the outer `None` is an overflow.
pub open spec fn usd_total(rows: Seq<CostRow>) -> Option<Option<Amount>>
    decreases rows.len(),
{
    if rows.len() == 0 {
        Some(None)
    } else {
        match usd_total(rows.drop_last()) {
            Some(sum) => match rows.last().usd {
                Some(a) => match (match sum {
                    Some(b) => b,
                    None => crate::money::zero_amount(),
                }).plus_spec(a) {
                    Some(c) => Some(Some(c)),
                    None => None,
                },
                None => Some(sum),
            },
            None => None,
        }
    }
}

/// The tokens of the groups, added up.
pub open spec fn token_total(rows: Seq<CostRow>) -> int
    decreases rows.len(),
{
    if rows.len() == 0 {
        0
    } else {
        token_total(rows.drop_last()) + rows.last().input_tokens + rows.last().output_tokens
    }
}

/// Every partial sum of the tokens fits its column.
pub open spec fn tokens_fit(rows: Seq<CostRow>) -> bool {
    forall|i: int|
        0 <= i <= rows.len() ==> i64::MIN <= #[trigger] token_total(rows.subrange(0, i)) <= i64::MAX
}

/// Adds the groups up; `None` where a sum does not fit.
pub fn cost_report(rows: Vec<CostRow>) -> (r: Option<CostReport>)
    requires
        forall|i: int| 0 <= i < rows@.len() ==> ((#[trigger] rows@[i]).usd matches Some(a) ==> a.wf()),
    ensures
        match r {
            Some(report) => {
                &&& report.rows == rows
                &&& usd_total(rows@) == Some(report.total_usd)
                &&& report.total_tokens == token_total(rows@)
                &&& tokens_fit(rows@)
            },
            None => usd_total(rows@) is None || !tokens_fit(rows@),
        },
{
    let mut usd: Option<Amount> = None;
    let mut tokens: i64 = 0;
    let mut i: usize = 0;
    let ghost s = rows@;
    while i < rows.len()
        invariant
            i <= s.len(),
            s == rows@,
            usd_total(s.subrange(0, i as int)) == Some(usd),
            usd matches Some(a) ==> a.wf(),
            tokens == token_total(s.subrange(0, i as int)),
            forall|k: int|
                0 <= k <= i ==> i64::MIN <= #[trigger] token_total(s.subrange(0, k)) <= i64::MAX,
            forall|i: int| 0 <= i < s.len() ==> ((#[trigger] s[i]).usd matches Some(a) ==> a.wf()),
        decreases s.len() - i,
    {
        proof {
            assert(s.subrange(0, i + 1).drop_last() =~= s.subrange(0, i as int));
            assert(s.subrange(0, i + 1).last() == s[i as int]);
        }
        if let Some(amount) = rows[i].usd {
            let before = match usd {
                Some(sum) => sum,
                None => Amount::zero(),
            };
            match before.plus(amount) {
                Some(sum) => {
                    usd = Some(sum);
                },
                None => {
                    proof {
                        lemma_usd_total_stays_none(s, i + 1);
                    }
                    return None;
                },
            }
        }
        let sum: i128 = (tokens as i128) + (rows[i].input_tokens as i128) + (
        rows[i].output_tokens as i128);
        assert(sum == token_total(s.subrange(0, i + 1)));
        if sum < (i64::MIN as i128) || sum > (i64::MAX as i128) {
            return None;
        }
        tokens = sum as i64;
        i = i + 1;
    }
    assert(s.subrange(0, s.len() as int) =~= s);
    Some(CostReport { total_usd: usd, total_tokens: tokens, rows })
}

proof fn lemma_usd_total_stays_none(rows: Seq<CostRow>, i: int)
    requires
        0 <= i <= rows.len(),
        usd_total(rows.subrange(0, i)) is None,
    ensures
        usd_total(rows) is None,
    decreases rows.len() - i,
{
    if i == rows.len() {
        assert(rows.subrange(0, i) =~= rows);
    } else {
        assert(rows.subrange(0, i + 1).drop_last() =~= rows.subrange(0, i));
        lemma_usd_total_stays_none(rows, i + 1);
    }
}

// ---------------------------------------------------------------------------
// Laws
// ---------------------------------------------------------------------------
/// `a` comes after `b` in a list with the newest first.
pub open spec fn is_older(a: Cursor, b: Cursor) -> bool {
    a.at < b.at || (a.at == b.at && a.id < b.id)
}

/// The keys are in the order of a list, the newest first, and none is there twice.
pub open spec fn newest_first(keys: Seq<Cursor>) -> bool {
    forall|i: int, j: int| 0 <= i < j < keys.len() ==> is_older(keys[j], keys[i])
}

/// The keys that a list goes on with after a cursor.
pub open spec fn beyond(keys: Seq<Cursor>, cursor: Cursor) -> Seq<Cursor> {
    keys.filter(|k: Cursor| is_older(k, cursor))
}

/// Following a page's cursor neither repeats nor skips a row: what lies beyond the
/// last row of the first `n` is exactly the rest.
pub proof fn law_pages_neither_repeat_nor_skip(keys: Seq<Cursor>, n: int)
    requires
        newest_first(keys),
        0 < n <= keys.len(),
    ensures
        beyond(keys, keys[n - 1]) == keys.subrange(n, keys.len() as int),
{
    let older = |k: Cursor| is_older(k, keys[n - 1]);
    let head = keys.subrange(0, n);
    let tail = keys.subrange(n, keys.len() as int);
    assert(keys =~= head + tail);
    Seq::filter_distributes_over_add(head, tail, older);
    assert forall|i: int| 0 <= i < head.len() implies !older(#[trigger] head[i]) by {
        assert(head[i] == keys[i]);
        if i < n - 1 {
            assert(is_older(keys[n - 1], keys[i]));
        }
    }
    lemma_keeps_none(head, older);
    assert forall|i: int| 0 <= i < tail.len() implies older(#[trigger] tail[i]) by {
        assert(tail[i] == keys[n + i]);
    }
    lemma_keeps_all(tail, older);
    assert(head.filter(older) + tail.filter(older) =~= tail);
}

proof fn lemma_keeps_none(s: Seq<Cursor>, keep: spec_fn(Cursor) -> bool)
    requires
        forall|i: int| 0 <= i < s.len() ==> !keep(#[trigger] s[i]),
    ensures
        s.filter(keep).len() == 0,
    decreases s.len(),
{
    reveal(Seq::filter);
    if s.len() > 0 {
        let rest = s.drop_last();
        assert forall|i: int| 0 <= i < rest.len() implies !keep(#[trigger] rest[i]) by {
            assert(rest[i] == s[i]);
        }
        lemma_keeps_none(rest, keep);
        assert(!keep(s[s.len() - 1]));
    }
}

proof fn lemma_keeps_all(s: Seq<Cursor>, keep: spec_fn(Cursor) -> bool)
    requires
        forall|i: int| 0 <= i < s.len() ==> keep(#[trigger] s[i]),
    ensures
        s.filter(keep) == s,
    decreases s.len(),
{
    reveal(Seq::filter);
    if s.len() > 0 {
        let rest = s.drop_last();
        assert forall|i: int| 0 <= i < rest.len() implies keep(#[trigger] rest[i]) by {
            assert(rest[i] == s[i]);
        }
        lemma_keeps_all(rest, keep);
        assert(keep(s[s.len() - 1]));
        assert(rest.push(s.last()) =~= s);
    } else {
        assert(s.filter(keep) =~= s);
    }
}

/// A query gets as many rows as it asks for, but at least one and at most five
/// hundred, and fifty where it does not say.
pub proof fn law_page_sizes_are_bounded(n: usize)
    ensures
        limit_of(None) == 50,
        1 <= n <= 500 ==> limit_of(Some(n)) == n,
        n == 0 ==> limit_of(Some(n)) == 1,
        n > 500 ==> limit_of(Some(n)) == 500,
{
}

/// A full page points at its last row; a page that is not full is the last one.
pub proof fn law_a_full_page_points_on<T: Keyed>(items: Seq<T>, limit: i64, next: Option<String>)
    requires
        pages_on(items, limit, next),
    ensures
        items.len() > 0 && items.len() == limit ==> (next matches Some(text) && text@
            == items[items.len() - 1].key().encoded()),
        items.len() < limit ==> next is None,
        items.len() == 0 ==> next is None,
{
}

/// A list of log lines goes on behind the last line that was seen: lines at or
/// below its number are left out, all later ones are in.
pub proof fn law_log_queries_go_on_behind(q: TaskLogQuery, seq: i64)
    ensures
        q.after_seq is None ==> q.wants(seq),
        q.after_seq matches Some(n) ==> (q.wants(seq) <==> seq > n),
{
}

/// The report adds every group up: a group more makes the total more by its
/// tokens, in and out, and by its amount; an unknown amount adds nothing.
pub proof fn law_a_report_adds_every_group_up(rows: Seq<CostRow>, row: CostRow)
    ensures
        token_total(Seq::empty()) == 0,
        usd_total(Seq::empty()) == Some(None::<Amount>),
        token_total(rows.push(row)) == token_total(rows) + row.input_tokens + row.output_tokens,
        row.usd is None ==> usd_total(rows.push(row)) == usd_total(rows),
        (row.usd matches Some(a) && (usd_total(rows) matches Some(Some(b)) && (b.plus_spec(
            a,
        ) matches Some(c)))) ==> usd_total(rows.push(row)) == Some(
            usd_total(rows)->0->0.plus_spec(row.usd->0),
        ),
{
    assert(rows.push(row).drop_last() =~= rows);
}

/// A cursor's text is a time and an identifier with a point between; without the
/// point, or where either cannot be read, it is no cursor.
pub proof fn law_a_cursor_is_a_time_and_an_id(head: Seq<char>, tail: Seq<char>)
    requires
        forall|i: int| 0 <= i < head.len() ==> head[i] != '.',
    ensures
        Cursor::decoded(head) is None,
        parse_i64_of(head) is None || uuid_parsed(tail) is None ==> Cursor::decoded(
            head + seq!['.'] + tail,
        ) is None,
        parse_i64_of(head) matches Some(at) ==> (uuid_parsed(tail) matches Some(id)
            ==> Cursor::decoded(head + seq!['.'] + tail) == (if -8_334_601_228_800_000_000 <= at
            <= 8_210_266_876_799_999_999 {
            Some(Cursor { at, id })
        } else {
            None
        })),
{
    lemma_first_of(head, '.');
    let s = head + seq!['.'] + tail;
    lemma_first_of(s, '.');
    let f = first_of(s, '.');
    assert(s[head.len() as int] == '.');
    if f < head.len() {
        assert(s[f] == head[f]);
    }
    assert(f == head.len());
    assert(s.subrange(0, f) =~= head);
    assert(s.subrange(f + 1, s.len() as int) =~= tail);
}

/// A cursor reads back as it was written, where its identifier does.
pub proof fn law_cursors_read_back(c: Cursor)
    requires
        c.wf(),
    ensures
        uuid_parsed(uuid_text_of(c.id)) == Some(c.id) ==> Cursor::decoded(c.encoded()) == Some(c),
{
    let n: nat = if c.at < 0 {
        (-(c.at as int)) as nat
    } else {
        c.at as nat
    };
    lemma_decimal_digits(n);
    lemma_parse_decimal(c.at);
    let head = signed_decimal_of(c.at as int);
    assert forall|i: int| 0 <= i < head.len() implies head[i] != '.' by {
        if c.at < 0 {
            if i > 0 {
                assert(head[i] == decimal_of(n)[i - 1]);
                assert(is_digit(decimal_of(n)[i - 1]));
            }
        } else {
            assert(is_digit(decimal_of(n)[i]));
        }
    }
    law_a_cursor_is_a_time_and_an_id(head, uuid_text_of(c.id));
}

} // verus!
