//! The command services: idempotency, optimistic concurrency and what is
//! published.
//!
//! A command that was processed before is answered with its recorded result. A
//! version conflict replays the command a few times, with a growing pause, and
//! then gives up.
use vstd::prelude::*;

use crate::domain::{Instant, RunId, Span};
use crate::error::{AppError, DomainError, StoreError};
use crate::ids::{hex_of, parse_uuid, uuid_parsed, uuid_text, uuid_text_of};
use crate::json::{is_unescaped, json_string, json_string_of, quoted};
use crate::text::cat3;

verus! {

/// How often a command is replayed after a version conflict.
pub const OCC_RETRIES: u32 = 3;

/// Component under which the engine itself issues commands.
pub const SYSTEM_COMPONENT: &'static str = "orchestrator";

/// The pause before a replay, in milliseconds.
pub open spec fn backoff_ms(retries: u32) -> u64 {
    if retries == 0 {
        10
    } else if retries == 1 {
        50
    } else {
        200
    }
}

/// The pause before the next replay, where `retries` were made.
pub fn backoff(retries: u32) -> (r: Span)
    ensures
        r.wf(),
        r.total() == backoff_ms(retries) * 1_000_000,
{
    let millis: u64 = if retries == 0 {
        10
    } else if retries == 1 {
        50
    } else {
        200
    };
    Span::from_millis(millis)
}

/// Who issued a command.
#[derive(Debug, PartialEq, Eq)]
pub enum Actor {
    System { component: String },
    User { name: String },
}

impl Clone for Actor {
    fn clone(&self) -> (r: Self)
        ensures
            r == *self,
    {
        match self {
            Actor::System { component } => Actor::System { component: component.clone() },
            Actor::User { name } => Actor::User { name: name.clone() },
        }
    }
}

/// Who issued a command, under which key and for which run.
#[derive(Debug, PartialEq, Eq)]
pub struct CommandContext {
    pub command_id: u128,
    pub actor: Actor,
    pub correlation_id: RunId,
}

impl CommandContext {
    /// A context of its parts.
    pub fn new(command_id: u128, actor: Actor, correlation_id: RunId) -> (r: CommandContext)
        ensures
            r == (CommandContext { command_id, actor, correlation_id }),
    {
        CommandContext { command_id, actor, correlation_id }
    }

    /// A command of the engine itself.
    pub fn system(command_id: u128, correlation_id: RunId) -> (r: CommandContext)
        ensures
            r.command_id == command_id,
            r.correlation_id == correlation_id,
            r.actor matches Actor::System { component } && component@ == SYSTEM_COMPONENT@,
    {
        CommandContext::new(
            command_id,
            Actor::System { component: SYSTEM_COMPONENT.to_owned() },
            correlation_id,
        )
    }

    /// A user's command.
    pub fn user(command_id: u128, correlation_id: RunId, name: String) -> (r: CommandContext)
        ensures
            r == (CommandContext { command_id, actor: Actor::User { name }, correlation_id }),
    {
        CommandContext::new(command_id, Actor::User { name }, correlation_id)
    }
}

/// An event to append; the payload is JSON text.
#[derive(Debug, PartialEq, Eq)]
pub struct NewEvent {
    pub event_id: u128,
    pub event_type: String,
    pub schema_version: u16,
    pub occurred_at: Instant,
    pub correlation_id: RunId,
    /// The command that caused it.
    pub causation_id: Option<u128>,
    pub actor: Actor,
    pub payload: String,
}

/// An event that was appended.
#[derive(Debug, PartialEq, Eq)]
pub struct StoredEvent {
    pub event_type: String,
    pub position: u64,
    pub payload: String,
}

/// What a service call produced; the result is JSON text.
#[derive(Debug, PartialEq, Eq)]
pub struct CommandOutcome {
    pub result: String,
    /// None on a replay.
    pub events: Vec<StoredEvent>,
    /// The command was processed before.
    pub replayed: bool,
}

impl CommandOutcome {
    /// The types of the events, in order.
    pub fn event_types(&self) -> (r: Vec<String>)
        ensures
            r@ == self.events@.map_values(|e: StoredEvent| e.event_type),
    {
        let ghost all = self.events@.map_values(|e: StoredEvent| e.event_type);
        let mut out: Vec<String> = Vec::new();
        let mut i: usize = 0;
        while i < self.events.len()
            invariant
                i <= self.events@.len(),
                all == self.events@.map_values(|e: StoredEvent| e.event_type),
                out@ == all.subrange(0, i as int),
            decreases self.events@.len() - i,
        {
            out.push(self.events[i].event_type.clone());
            i = i + 1;
            assert(out@ =~= all.subrange(0, i as int));
        }
        assert(all.subrange(0, all.len() as int) =~= all);
        out
    }
}

/// What became of an append.
#[derive(Debug, PartialEq, Eq)]
pub enum Appended {
    Done(Vec<StoredEvent>),
    Failed(StoreError),
}

/// What follows an append.
#[derive(Debug, PartialEq, Eq)]
#[allow(inconsistent_fields)]
pub enum AppendStep {
    /// Record the result, publish the events and be done.
    Finish { events: Vec<StoredEvent> },
    /// Pause, load the aggregate again and replay.
    Replay { pause: Span, retries: u32 },
    Fail(AppError),
}

/// The answer where the command was processed before.
pub fn replayed(previous: Option<String>) -> (r: Option<CommandOutcome>)
    ensures
        match previous {
            Some(result) => r matches Some(outcome) && outcome.result == result
                && outcome.events@.len() == 0 && outcome.replayed,
            None => r is None,
        },
{
    match previous {
        Some(result) => Some(CommandOutcome { result, events: Vec::new(), replayed: true }),
        None => None,
    }
}

/// The number of replays after one more; `None` where it was the last.
pub open spec fn next_retry(retries: u32) -> Option<u32> {
    if retries < OCC_RETRIES {
        Some((retries + 1) as u32)
    } else {
        None
    }
}

/// The number of replays after so many conflicts in a row; `None` where the command
/// was given up.
pub open spec fn retries_after(conflicts: nat) -> Option<u32>
    decreases conflicts,
{
    if conflicts == 0 {
        Some(0)
    } else {
        match retries_after((conflicts - 1) as nat) {
            Some(retries) => next_retry(retries),
            None => None,
        }
    }
}

/// What follows an append, where `retries` replays were made before it. Only a
/// version conflict is replayed, and only so often.
pub fn after_append(appended: Appended, retries: u32, stream: &str) -> (r: AppendStep)
    requires
        retries <= OCC_RETRIES,
    ensures
        match appended {
            Appended::Done(events) => r == (AppendStep::Finish { events }),
            Appended::Failed(StoreError::VersionConflict { .. }) => match next_retry(retries) {
                Some(next) => r matches AppendStep::Replay { pause, retries: n } && n == next
                    && pause.total() == backoff_ms(retries) * 1_000_000,
                None => r matches AppendStep::Fail(AppError::Conflict { stream: s, attempts })
                    && s@ == stream@ && attempts == OCC_RETRIES + 1,
            },
            Appended::Failed(error) => r == AppendStep::Fail(AppError::Store(error)),
        },
{
    match appended {
        Appended::Done(events) => AppendStep::Finish { events },
        Appended::Failed(StoreError::VersionConflict { message }) => if retries < OCC_RETRIES {
            AppendStep::Replay { pause: backoff(retries), retries: retries + 1 }
        } else {
            AppendStep::Fail(
                AppError::Conflict { stream: stream.to_owned(), attempts: retries + 1 },
            )
        },
        Appended::Failed(error) => AppendStep::Fail(AppError::Store(error)),
    }
}

/// The outcome of a command that was applied; `recorded` is the result that the
/// command log holds now.
pub fn applied(recorded: String, events: Vec<StoredEvent>) -> (r: CommandOutcome)
    ensures
        r == (CommandOutcome { result: recorded, events, replayed: false }),
{
    CommandOutcome { result: recorded, events, replayed: false }
}

// ---------------------------------------------------------------------------
// Execution
// ---------------------------------------------------------------------------
/// What an execution waits for.
#[derive(Debug, Clone, Copy, PartialEq, Eq, Structural)]
pub enum Stage {
    LookingUp,
    Deciding,
    Appending,
    Pausing,
    Recording,
    Publishing,
    Ended,
}

/// What is to be done for a command.
#[derive(Debug, PartialEq, Eq)]
pub enum Action {
    /// Look the command up among the processed ones.
    LookUp,
    /// Load the aggregate and let it decide the command.
    Load,
    /// Append the events it decided on.
    Append,
    /// Wait before the replay.
    Pause(Span),
    /// Record the result of the command.
    Record,
    /// Publish the events that were appended.
    Publish,
    Done(CommandOutcome),
    Failed(AppError),
}

/// What came of an action.
#[derive(Debug, PartialEq, Eq)]
pub enum Reply {
    /// The recorded result of the command, where it was processed before.
    Known(Option<String>),
    /// The aggregate accepted the command.
    Decided,
    Appended(Appended),
    Paused,
    /// The result that stands in the command log.
    Recorded(String),
    /// Published, or not: a bus that fails does not fail the command.
    Published,
    /// Looking up, loading, deciding or recording failed.
    Failed(AppError),
}

/// A command on its way.
#[derive(Debug, PartialEq, Eq)]
pub struct Execution {
    pub stage: Stage,
    /// Replays so far.
    pub retries: u32,
    /// The events that were appended.
    pub events: Vec<StoredEvent>,
    /// The result that was recorded, empty before.
    pub kept: String,
}

/// A command on its way.
pub ghost struct ExecutionModel {
    pub stage: Stage,
    pub retries: u32,
    pub events: Seq<StoredEvent>,
    pub kept: Seq<char>,
}

/// An action as its contents.
pub ghost enum ActionModel {
    LookUp,
    Load,
    Append,
    /// In nanoseconds.
    Pause(int),
    Record,
    Publish,
    Done { result: Seq<char>, events: Seq<StoredEvent>, replayed: bool },
    GivenUp { stream: Seq<char>, attempts: u32 },
    Failed(AppError),
}

impl View for Execution {
    type V = ExecutionModel;

    open spec fn view(&self) -> ExecutionModel {
        ExecutionModel {
            stage: self.stage,
            retries: self.retries,
            events: self.events@,
            kept: self.kept@,
        }
    }
}

impl View for Action {
    type V = ActionModel;

    open spec fn view(&self) -> ActionModel {
        match *self {
            Action::LookUp => ActionModel::LookUp,
            Action::Load => ActionModel::Load,
            Action::Append => ActionModel::Append,
            Action::Pause(span) => ActionModel::Pause(span.total()),
            Action::Record => ActionModel::Record,
            Action::Publish => ActionModel::Publish,
            Action::Done(outcome) => ActionModel::Done {
                result: outcome.result@,
                events: outcome.events@,
                replayed: outcome.replayed,
            },
            Action::Failed(AppError::Conflict { stream, attempts }) => ActionModel::GivenUp {
                stream: stream@,
                attempts,
            },
            Action::Failed(error) => ActionModel::Failed(error),
        }
    }
}

/// The failure as an action.
pub open spec fn failed_with(error: AppError) -> ActionModel {
    Action::Failed(error)@
}

impl ExecutionModel {
    pub open spec fn started() -> ExecutionModel {
        ExecutionModel {
            stage: Stage::LookingUp,
            retries: 0,
            events: Seq::empty(),
            kept: Seq::empty(),
        }
    }

    /// The command is not replayed too often.
    pub open spec fn wf(self) -> bool {
        self.retries <= OCC_RETRIES
    }

    /// The reply answers what the execution waits for.
    pub open spec fn expects(self, reply: Reply) -> bool {
        match reply {
            Reply::Known(_) => self.stage == Stage::LookingUp,
            Reply::Decided => self.stage == Stage::Deciding,
            Reply::Appended(_) => self.stage == Stage::Appending,
            Reply::Paused => self.stage == Stage::Pausing,
            Reply::Recorded(_) => self.stage == Stage::Recording,
            Reply::Published => self.stage == Stage::Publishing,
            Reply::Failed(_) => self.stage == Stage::LookingUp || self.stage == Stage::Deciding
                || self.stage == Stage::Recording,
        }
    }

    /// What follows a reply: a command that was processed before is answered with
    /// its recorded result; any other is decided, its events are appended, its
    /// result is recorded and the events are published. A version conflict starts
    /// anew after a pause, and only so often.
    pub open spec fn after(self, stream: Seq<char>, reply: Reply) -> (ExecutionModel, ActionModel) {
        let ended = ExecutionModel { stage: Stage::Ended, ..self };
        match reply {
            Reply::Known(Some(result)) => (
                ended,
                ActionModel::Done { result: result@, events: Seq::empty(), replayed: true },
            ),
            Reply::Known(None) => (
                ExecutionModel { stage: Stage::Deciding, ..self },
                ActionModel::Load,
            ),
            Reply::Decided => (
                ExecutionModel { stage: Stage::Appending, ..self },
                ActionModel::Append,
            ),
            Reply::Appended(Appended::Done(events)) => (
                ExecutionModel { stage: Stage::Recording, events: events@, ..self },
                ActionModel::Record,
            ),
            Reply::Appended(Appended::Failed(StoreError::VersionConflict { .. })) => match next_retry(
                self.retries,
            ) {
                Some(retries) => (
                    ExecutionModel { stage: Stage::Pausing, retries, ..self },
                    ActionModel::Pause(backoff_ms(self.retries) * 1_000_000),
                ),
                None => (
                    ended,
                    ActionModel::GivenUp { stream, attempts: (OCC_RETRIES + 1) as u32 },
                ),
            },
            Reply::Appended(Appended::Failed(error)) => (
                ended,
                failed_with(AppError::Store(error)),
            ),
            Reply::Paused => (
                ExecutionModel { stage: Stage::Deciding, ..self },
                ActionModel::Load,
            ),
            Reply::Recorded(result) => (
                ExecutionModel { stage: Stage::Publishing, kept: result@, ..self },
                ActionModel::Publish,
            ),
            Reply::Published => (
                ended,
                ActionModel::Done { result: self.kept, events: self.events, replayed: false },
            ),
            Reply::Failed(error) => (ended, failed_with(error)),
        }
    }
}

fn copy_events(events: &Vec<StoredEvent>) -> (r: Vec<StoredEvent>)
    ensures
        r@ == events@,
{
    let mut out: Vec<StoredEvent> = Vec::new();
    let mut i: usize = 0;
    while i < events.len()
        invariant
            i <= events@.len(),
            out@ == events@.subrange(0, i as int),
        decreases events@.len() - i,
    {
        let e = &events[i];
        out.push(
            StoredEvent {
                event_type: e.event_type.clone(),
                position: e.position,
                payload: e.payload.clone(),
            },
        );
        i = i + 1;
        assert(out@ =~= events@.subrange(0, i as int));
    }
    assert(events@.subrange(0, events@.len() as int) =~= events@);
    out
}

impl Execution {
    /// A command that came in, and the first thing to do for it.
    pub fn start() -> (r: (Execution, Action))
        ensures
            r.0@ == ExecutionModel::started(),
            r.0@.wf(),
            r.1@ == ActionModel::LookUp,
    {
        let execution = Execution {
            stage: Stage::LookingUp,
            retries: 0,
            events: Vec::new(),
            kept: String::new(),
        };
        (execution, Action::LookUp)
    }

    /// Whether the reply answers what the execution waits for.
    pub fn accepts(&self, reply: &Reply) -> (b: bool)
        ensures
            b == self@.expects(*reply),
    {
        match reply {
            Reply::Known(_) => self.stage == Stage::LookingUp,
            Reply::Decided => self.stage == Stage::Deciding,
            Reply::Appended(_) => self.stage == Stage::Appending,
            Reply::Paused => self.stage == Stage::Pausing,
            Reply::Recorded(_) => self.stage == Stage::Recording,
            Reply::Published => self.stage == Stage::Publishing,
            Reply::Failed(_) => self.stage == Stage::LookingUp || self.stage == Stage::Deciding
                || self.stage == Stage::Recording,
        }
    }

    /// What follows a reply; `stream` names the aggregate's stream.
    pub fn next(self, stream: &str, reply: Reply) -> (r: (Execution, Action))
        requires
            self@.wf(),
            self@.expects(reply),
        ensures
            (r.0@, r.1@) == self@.after(stream@, reply),
            r.0@.wf(),
    {
        let mut next = self;
        match reply {
            Reply::Known(previous) => match replayed(previous) {
                Some(outcome) => {
                    next.stage = Stage::Ended;
                    assert(outcome.events@ =~= Seq::<StoredEvent>::empty());
                    (next, Action::Done(outcome))
                },
                None => {
                    next.stage = Stage::Deciding;
                    (next, Action::Load)
                },
            },
            Reply::Decided => {
                next.stage = Stage::Appending;
                (next, Action::Append)
            },
            Reply::Appended(appended) => match after_append(appended, next.retries, stream) {
                AppendStep::Finish { events } => {
                    next.stage = Stage::Recording;
                    next.events = events;
                    (next, Action::Record)
                },
                AppendStep::Replay { pause, retries } => {
                    next.stage = Stage::Pausing;
                    next.retries = retries;
                    (next, Action::Pause(pause))
                },
                AppendStep::Fail(error) => {
                    next.stage = Stage::Ended;
                    (next, Action::Failed(error))
                },
            },
            Reply::Paused => {
                next.stage = Stage::Deciding;
                (next, Action::Load)
            },
            Reply::Recorded(result) => {
                next.stage = Stage::Publishing;
                next.kept = result;
                (next, Action::Publish)
            },
            Reply::Published => {
                next.stage = Stage::Ended;
                let outcome = applied(next.kept.clone(), copy_events(&next.events));
                (next, Action::Done(outcome))
            },
            Reply::Failed(error) => {
                next.stage = Stage::Ended;
                (next, Action::Failed(error))
            },
        }
    }
}

/// Where a command stands after the replies, and all that was done for it; a
/// reply that nothing waits for has no part in it.
pub open spec fn run_of(stream: Seq<char>, replies: Seq<Reply>) -> (ExecutionModel, Seq<ActionModel>)
    decreases replies.len(),
{
    if replies.len() == 0 {
        (ExecutionModel::started(), seq![ActionModel::LookUp])
    } else {
        let (state, done) = run_of(stream, replies.drop_last());
        if state.expects(replies.last()) {
            let (next, action) = state.after(stream, replies.last());
            (next, done.push(action))
        } else {
            (state, done)
        }
    }
}

/// A command that was processed before does nothing but look that up: it is
/// answered with the recorded result, whatever comes later, and nothing is
/// loaded, appended, recorded or published.
pub proof fn law_a_processed_command_changes_nothing(
    stream: Seq<char>,
    replies: Seq<Reply>,
    previous: String,
)
    requires
        replies.len() > 0,
        replies[0] == Reply::Known(Some(previous)),
    ensures
        run_of(stream, replies).1 == seq![
            ActionModel::LookUp,
            ActionModel::Done { result: previous@, events: Seq::empty(), replayed: true },
        ],
        run_of(stream, replies).0.stage == Stage::Ended,
    decreases replies.len(),
{
    let before = replies.drop_last();
    if replies.len() == 1 {
        assert(run_of(stream, before) == (
            ExecutionModel::started(),
            seq![ActionModel::LookUp],
        ));
        assert(replies.last() == replies[0]);
        assert(run_of(stream, replies).1 =~= seq![
            ActionModel::LookUp,
            ActionModel::Done { result: previous@, events: Seq::empty(), replayed: true },
        ]);
    } else {
        law_a_processed_command_changes_nothing(stream, before, previous);
    }
}

/// Every publishing stands behind a recording, and every recording behind an
/// append.
pub open spec fn committed_first(done: Seq<ActionModel>) -> bool {
    &&& forall|i: int|
        0 <= i < done.len() && (#[trigger] done[i]) is Publish ==> i >= 2 && done[i - 1] is Record
            && done[i - 2] is Append
    &&& forall|i: int|
        0 <= i < done.len() && (#[trigger] done[i]) is Record ==> i >= 1 && done[i - 1] is Append
}

/// The last action is the one that the stage waits for.
spec fn in_step(state: ExecutionModel, done: Seq<ActionModel>) -> bool {
    done.len() > 0 && match state.stage {
        Stage::LookingUp => done.last() is LookUp,
        Stage::Deciding => done.last() is Load,
        Stage::Appending => done.last() is Append,
        Stage::Pausing => done.last() is Pause,
        Stage::Recording => done.last() is Record,
        Stage::Publishing => done.last() is Publish,
        Stage::Ended => true,
    }
}

/// The bus learns only of events that are on record: events are published only
/// once they were appended and the result of the command was recorded, and the
/// command is replayed at most so often.
pub proof fn law_only_committed_events_are_published(stream: Seq<char>, replies: Seq<Reply>)
    ensures
        committed_first(run_of(stream, replies).1),
        run_of(stream, replies).0.wf(),
{
    lemma_in_step(stream, replies);
}

proof fn lemma_in_step(stream: Seq<char>, replies: Seq<Reply>)
    ensures
        in_step(run_of(stream, replies).0, run_of(stream, replies).1),
        committed_first(run_of(stream, replies).1),
        run_of(stream, replies).0.wf(),
    decreases replies.len(),
{
    if replies.len() > 0 {
        let before = replies.drop_last();
        lemma_in_step(stream, before);
        let (state, done) = run_of(stream, before);
        if state.expects(replies.last()) {
            let (next, action) = state.after(stream, replies.last());
            let all = done.push(action);
            assert(all.last() == action);
            assert forall|i: int| 0 <= i < all.len() && (#[trigger] all[i]) is Publish implies i
                >= 2 && all[i - 1] is Record && all[i - 2] is Append by {
                if i < done.len() {
                    assert(done[i] is Publish);
                } else {
                    assert(done[done.len() - 1] is Record);
                }
            }
            assert forall|i: int| 0 <= i < all.len() && (#[trigger] all[i]) is Record implies i >= 1
                && all[i - 1] is Append by {
                if i < done.len() {
                    assert(done[i] is Record);
                } else {
                    assert(done[done.len() - 1] is Append);
                }
            }
        }
    }
}

/// The event of a command.
pub open spec fn event_of(
    event_id: u128,
    event_type: String,
    schema_version: u16,
    now: Instant,
    payload: String,
    ctx: CommandContext,
) -> NewEvent {
    NewEvent {
        event_id,
        event_type,
        schema_version,
        occurred_at: now,
        correlation_id: ctx.correlation_id,
        causation_id: Some(ctx.command_id),
        actor: ctx.actor,
        payload,
    }
}

/// An event of a command: it belongs to the command's run, and the command caused
/// it.
pub fn new_event(
    event_id: u128,
    event_type: String,
    schema_version: u16,
    now: Instant,
    payload: String,
    ctx: &CommandContext,
) -> (r: NewEvent)
    ensures
        r == event_of(event_id, event_type, schema_version, now, payload, *ctx),
{
    NewEvent {
        event_id,
        event_type,
        schema_version,
        occurred_at: now,
        correlation_id: ctx.correlation_id,
        causation_id: Some(ctx.command_id),
        actor: ctx.actor.clone(),
        payload,
    }
}

/// What an aggregate's refusal is reported as.
pub open spec fn refusal_of(aggregate: &'static str, id: u128, error: DomainError) -> AppError {
    if error is NotFound {
        AppError::NotFound { aggregate, id }
    } else {
        AppError::Domain(error)
    }
}

/// The service's error for an aggregate's refusal.
pub fn map_domain_error(aggregate: &'static str, id: u128, error: DomainError) -> (r: AppError)
    ensures
        r == refusal_of(aggregate, id, error),
{
    match error {
        DomainError::NotFound { .. } => AppError::NotFound { aggregate, id },
        other => AppError::Domain(other),
    }
}

// ---------------------------------------------------------------------------
// Results that are identifiers
// ---------------------------------------------------------------------------
/// The recorded result that names an identifier, as JSON text.
pub fn id_result(id: u128) -> (r: String)
    ensures
        r@ == "\""@ + uuid_text_of(id) + "\""@,
{
    let text = uuid_text(id);
    cat3("\"", text.as_str(), "\"")
}

/// The identifier that a recorded result names.
pub open spec fn named_id(result: Seq<char>) -> Option<u128> {
    match json_string_of(result) {
        Some(text) => uuid_parsed(text),
        None => None,
    }
}

/// The identifier that a recorded result names; a result of another kind is a
/// duplicate of another command.
pub fn created_id(result: String) -> (r: Result<u128, AppError>)
    ensures
        match named_id(result@) {
            Some(id) => r == Ok::<u128, AppError>(id),
            None => r == Err::<u128, AppError>(AppError::Duplicate(result)),
        },
        forall|id: u128|
            result@ == "\""@ + #[trigger] uuid_text_of(id) + "\""@ ==> r == Ok::<u128, AppError>(id),
{
    let text = json_string(result.as_str());
    proof {
        reveal_strlit("\"");
        assert forall|id: u128| result@ == "\""@ + #[trigger] uuid_text_of(id)
            + "\""@ implies text is Some && text->0@ == uuid_text_of(id) by {
            let s = uuid_text_of(id);
            assert("\""@ =~= seq!['"']);
            assert(quoted(s) =~= result@);
            lemma_uuid_text_is_unescaped(id);
        }
    }
    let id = match &text {
        Some(t) => parse_uuid(t.as_str()),
        None => None,
    };
    match id {
        Some(id) => Ok(id),
        None => Err(AppError::Duplicate(result)),
    }
}

proof fn lemma_hex(n: nat, width: nat)
    ensures
        hex_of(n, width).len() == width,
        forall|i: int|
            0 <= i < width ==> ('0' <= #[trigger] hex_of(n, width)[i] <= '9') || ('a' <= hex_of(
                n,
                width,
            )[i] <= 'f'),
    decreases width,
{
    if width > 0 {
        lemma_hex(n / 16, (width - 1) as nat);
    }
}

proof fn lemma_uuid_text_is_unescaped(id: u128)
    ensures
        is_unescaped(uuid_text_of(id)),
{
    let h = hex_of(id as nat, 32);
    lemma_hex(id as nat, 32);
    let s = uuid_text_of(id);
    assert forall|i: int| 0 <= i < s.len() implies (#[trigger] s[i]) >= ' ' && s[i] != '"' && s[i]
        != '\\' by {
        if i < 8 {
            assert(s[i] == h[i]);
        } else if i == 8 || i == 13 || i == 18 || i == 23 {
            assert(s[i] == '-');
        } else if i < 13 {
            assert(s[i] == h[i - 1]);
        } else if i < 18 {
            assert(s[i] == h[i - 2]);
        } else if i < 23 {
            assert(s[i] == h[i - 3]);
        } else {
            assert(s[i] == h[i - 4]);
        }
    }
}

/// A stream that keeps moving on is given up after the last replay: a command is
/// replayed at most so often, and so often it is.
pub proof fn law_conflicts_are_given_up(conflicts: nat)
    ensures
        retries_after(conflicts) == (if conflicts <= OCC_RETRIES {
            Some(conflicts as u32)
        } else {
            None
        }),
    decreases conflicts,
{
    if conflicts > 0 {
        law_conflicts_are_given_up((conflicts - 1) as nat);
    }
}

/// A command that is new goes its whole way: it is decided, its events are
/// appended, its result is recorded, the events are published, and it is answered
/// with the recorded result and exactly the events that were appended.
pub proof fn law_a_new_command_goes_its_way(
    stream: Seq<char>,
    events: Vec<StoredEvent>,
    result: String,
)
    ensures
        ({
            let start = ExecutionModel::started();
            let (a, load) = start.after(stream, Reply::Known(None));
            let (b, append) = a.after(stream, Reply::Decided);
            let (c, record) = b.after(stream, Reply::Appended(Appended::Done(events)));
            let (d, publish) = c.after(stream, Reply::Recorded(result));
            let (e, done) = d.after(stream, Reply::Published);
            &&& start.expects(Reply::Known(None)) && a.expects(Reply::Decided) && b.expects(
                Reply::Appended(Appended::Done(events)),
            ) && c.expects(Reply::Recorded(result)) && d.expects(Reply::Published)
            &&& load is Load && append is Append && record is Record && publish is Publish
            &&& done == (ActionModel::Done { result: result@, events: events@, replayed: false })
            &&& e.stage == Stage::Ended
        }),
{
}

/// A version conflict is replayed from the load on, after a pause of ten, then
/// fifty, then two hundred milliseconds; the fourth conflict gives the command up.
/// No other failure of the store is replayed.
pub proof fn law_conflicts_are_replayed(
    state: ExecutionModel,
    stream: Seq<char>,
    message: String,
    error: StoreError,
)
    requires
        state.retries <= 3,
        !(error is VersionConflict),
    ensures
        ({
            let conflict = Reply::Appended(
                Appended::Failed(StoreError::VersionConflict { message }),
            );
            let (next, action) = state.after(stream, conflict);
            &&& state.retries < 3 ==> next.stage == Stage::Pausing && next.retries == state.retries
                + 1
            &&& state.retries == 0 ==> action == ActionModel::Pause(10_000_000)
            &&& state.retries == 1 ==> action == ActionModel::Pause(50_000_000)
            &&& state.retries == 2 ==> action == ActionModel::Pause(200_000_000)
            &&& state.retries == 3 ==> next.stage == Stage::Ended && action
                == (ActionModel::GivenUp { stream, attempts: 4 })
            &&& next.after(stream, Reply::Paused).1 is Load
            &&& next.after(stream, Reply::Paused).0.stage == Stage::Deciding
        }),
        ({
            let (next, action) = state.after(stream, Reply::Appended(Appended::Failed(error)));
            next.stage == Stage::Ended && action is Failed
        }),
{
}

/// A failure ends the command where it stands, and a reply counts only where it is
/// waited for; a command that ended waits for none.
pub proof fn law_a_failed_command_ends(
    state: ExecutionModel,
    stream: Seq<char>,
    error: AppError,
    reply: Reply,
)
    ensures
        state.after(stream, Reply::Failed(error)).0.stage == Stage::Ended,
        state.stage == Stage::Ended ==> !state.expects(reply),
        state.expects(reply) && reply is Known ==> state.stage == Stage::LookingUp,
        state.expects(reply) && reply is Decided ==> state.stage == Stage::Deciding,
        state.expects(reply) && reply is Appended ==> state.stage == Stage::Appending,
        state.expects(reply) && reply is Paused ==> state.stage == Stage::Pausing,
        state.expects(reply) && reply is Recorded ==> state.stage == Stage::Recording,
        state.expects(reply) && reply is Published ==> state.stage == Stage::Publishing,
{
}

/// An event belongs to the run of its command, names the command as its cause and
/// who issued it, and is otherwise as it was decided.
pub proof fn law_an_event_names_its_command(
    event_id: u128,
    event_type: String,
    schema_version: u16,
    now: Instant,
    payload: String,
    ctx: CommandContext,
)
    ensures
        ({
            let e = event_of(event_id, event_type, schema_version, now, payload, ctx);
            &&& e.correlation_id == ctx.correlation_id
            &&& e.causation_id == Some(ctx.command_id)
            &&& e.actor == ctx.actor
            &&& e.event_id == event_id && e.event_type == event_type && e.schema_version
                == schema_version && e.occurred_at == now && e.payload == payload
        }),
{
}

/// An aggregate that is not there is reported as such; every other refusal is
/// passed on.
pub proof fn law_refusals_are_passed_on(aggregate: &'static str, id: u128, error: DomainError)
    ensures
        error is NotFound ==> refusal_of(aggregate, id, error) == (AppError::NotFound {
            aggregate,
            id,
        }),
        !(error is NotFound) ==> refusal_of(aggregate, id, error) == AppError::Domain(error),
{
}

/// A command starts with looking it up, not replayed yet, and with no events.
pub proof fn law_a_command_starts_from_nothing(stream: Seq<char>)
    ensures
        ExecutionModel::started().stage == Stage::LookingUp,
        ExecutionModel::started().retries == 0,
        ExecutionModel::started().events.len() == 0,
        ExecutionModel::started().kept.len() == 0,
{
}

} // verus!
