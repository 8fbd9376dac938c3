//! One role call: what is handed to the worker, what its turn amounts to, and
//! when a repair turn follows.
//!
//! A role call is one worker attempt that carries the role's schema. An answer
//! that breaks the schema buys exactly one repair turn on the same session; a
//! second one fails the call.
use vstd::prelude::*;

use super::context::RoleContext;
use super::memory_block::MemoryBlock;
use super::{Role, RoleError, RoleRequest, StructuredError};
use crate::convert::{usage_from_worker, WorkerUsage};
use crate::domain::{
    clone_text, FailureClass, Route, RunId, Span, TaskKind, Usage, WorkerKind, Workspace,
    WorkspacePolicy,
};
use crate::text::{
    cat, contains, has_prefix, lower_of, occurs_in, same, starts_with, to_lower, trim, trim_of,
    trim_start, trim_start_of,
};

verus! {

/// Seconds that the worker's own budget gets on top of the role's timeout.
pub const TIMEOUT_GRACE: u64 = 5;

/// Runs roles for one run, in one workspace.
#[derive(Debug, PartialEq, Eq)]
pub struct RoleRunner {
    pub run_id: RunId,
    pub workspace: Workspace,
}

/// The attempt that one turn asks the worker for.
#[derive(Debug, PartialEq, Eq)]
pub struct TurnRequest {
    pub run_id: RunId,
    pub workspace: Workspace,
    pub kind: TaskKind,
    /// The role's name.
    pub title: String,
    pub instructions: String,
    pub workspace_policy: WorkspacePolicy,
    pub output_schema: Option<String>,
    pub route: Route,
    pub system_prompt_append: String,
    pub memory: Option<String>,
    /// Session to go on with.
    pub prior_session: Option<String>,
    pub timeout: Span,
}

/// What a turn produced.
#[derive(Debug, PartialEq, Eq)]
pub enum TurnAnswer {
    /// Raw text, or the worker's structured output as JSON text.
    Text(String),
    /// The worker refused its own output.
    SchemaViolation(StructuredError),
}

/// One worker turn.
#[derive(Debug, PartialEq, Eq)]
pub struct Turn {
    pub answer: TurnAnswer,
    pub usage: Usage,
    pub session_id: Option<String>,
}

/// How the worker's attempt ended.
#[derive(Debug, PartialEq, Eq)]
#[allow(inconsistent_fields)]
pub enum TurnEnd {
    /// It could not be started.
    SpawnFailed { message: String },
    /// It was not done in time.
    TimedOut,
    /// `structured` is JSON text.
    Succeeded {
        text: String,
        structured: Option<String>,
        usage: WorkerUsage,
        session_id: Option<String>,
    },
    Failed { class: FailureClass, message: String, usage: WorkerUsage },
}

/// An answer after the role has read it.
#[derive(Debug, PartialEq, Eq)]
pub enum Reading<O> {
    /// What the role made of the text.
    Parsed(Result<O, RoleError>),
    /// The worker refused its own output.
    SchemaViolation(StructuredError),
}

/// What follows the first turn of a call.
#[derive(Debug, PartialEq, Eq)]
#[allow(inconsistent_fields)]
pub enum CallStep<O> {
    Done { output: O, usage: Usage },
    Failed { error: RoleError },
    /// One more turn, on the session if there is one.
    Repair { error: StructuredError, session_id: Option<String>, usage: Usage },
}

/// The route of a call.
pub open spec fn route_of_call(route: Route, effort: Option<String>) -> Route {
    Route {
        worker: route.worker,
        model: route.model,
        effort: match effort {
            Some(e) => Some(e),
            None => route.effort,
        },
    }
}

/// The route of the call: the effort of the call goes before that of the route.
pub fn call_route(route: &Route, effort: Option<String>) -> (r: Route)
    ensures
        r == route_of_call(*route, effort),
{
    let effort = match effort {
        Some(e) => Some(e),
        None => clone_text(&route.effort),
    };
    Route { worker: route.worker.clone(), model: route.model.clone(), effort }
}

/// The role's timeout and the grace on top, capped at the longest span.
pub open spec fn with_grace(timeout: Span) -> Span {
    if timeout.secs + TIMEOUT_GRACE > u64::MAX {
        Span { secs: u64::MAX, nanos: 999_999_999 }
    } else {
        Span { secs: (timeout.secs + TIMEOUT_GRACE) as u64, nanos: timeout.nanos }
    }
}

fn add_grace(timeout: Span) -> (r: Span)
    ensures
        r == with_grace(timeout),
{
    match timeout.secs.checked_add(TIMEOUT_GRACE) {
        Some(secs) => Span { secs, nanos: timeout.nanos },
        None => Span { secs: u64::MAX, nanos: 999_999_999 },
    }
}

/// The model alias is configured, for this worker.
pub open spec fn model_fits(model_worker: Option<WorkerKind>, route: Route) -> bool {
    model_worker matches Some(w) && w.name@ == route.worker.name@
}

/// The attempt that a turn asks for, or why there can be none.
pub open spec fn turn_asked(
    runner: RoleRunner,
    key: Seq<char>,
    kind: TaskKind,
    policy: WorkspacePolicy,
    request: RoleRequest,
    route: Route,
    memory: Option<MemoryBlock>,
    timeout: Span,
    message: String,
    prior_session: Option<String>,
    worker_known: bool,
    model_worker: Option<WorkerKind>,
    r: Result<TurnRequest, RoleError>,
) -> bool {
        match r {
            Err(RoleError::WorkerUnavailable { role: name, worker }) => !worker_known && name@
                == key && worker == route.worker,
            Err(RoleError::UnknownModel { role: name, alias }) => worker_known && !model_fits(
                model_worker,
                route,
            ) && name@ == key && alias == route.model,
            Err(_) => false,
            Ok(turn) => {
                &&& worker_known && model_fits(model_worker, route)
                &&& turn.run_id == runner.run_id
                &&& turn.workspace == runner.workspace
                &&& turn.kind == kind
                &&& turn.title@ == key
                &&& turn.instructions == message
                &&& turn.workspace_policy == policy
                &&& turn.output_schema == request.schema
                &&& turn.route == route
                &&& turn.system_prompt_append == request.system
                &&& (match memory {
                    Some(block) => turn.memory matches Some(m) && m@ == block@.text,
                    None => turn.memory is None,
                })
                &&& turn.prior_session == prior_session
                &&& turn.timeout == with_grace(timeout)
            },
        }
}

impl RoleRunner {
    /// A runner for a run whose role calls happen in `workspace`.
    pub fn new(run_id: RunId, workspace: Workspace) -> (r: RoleRunner)
        ensures
            r == (RoleRunner { run_id, workspace }),
    {
        RoleRunner { run_id, workspace }
    }

    /// The workspace of the role calls.
    pub fn workspace(&self) -> (r: &Workspace)
        ensures
            *r == self.workspace,
    {
        &self.workspace
    }

    /// The attempt to ask for, or why there can be none. `worker_known` says whether
    /// a worker of the route's kind is there; `model_worker` is the worker that the
    /// route's model alias is configured for.
    pub fn turn<R: Role>(
        &self,
        role: &R,
        request: &RoleRequest,
        route: &Route,
        ctx: &RoleContext,
        timeout: Span,
        message: String,
        prior_session: Option<String>,
        worker_known: bool,
        model_worker: Option<WorkerKind>,
    ) -> (r: Result<TurnRequest, RoleError>)
        ensures
            turn_asked(
                *self,
                role.key(),
                role.kind(),
                role.policy(),
                *request,
                *route,
                ctx.memory,
                timeout,
                message,
                prior_session,
                worker_known,
                model_worker,
                r,
            ),
    {
        if !worker_known {
            return Err(
                RoleError::WorkerUnavailable { role: role.name(), worker: route.worker.clone() },
            );
        }
        let fits = match &model_worker {
            Some(w) => same(w.name.as_str(), route.worker.name.as_str()),
            None => false,
        };
        if !fits {
            return Err(unknown_model(role.name(), &route.model));
        }
        let memory = match &ctx.memory {
            Some(block) => Some(block.text().to_owned()),
            None => None,
        };
        Ok(
            TurnRequest {
                run_id: self.run_id,
                workspace: self.workspace.clone(),
                kind: role.task_kind(),
                title: role.name().to_owned(),
                instructions: message,
                workspace_policy: role.workspace_policy(),
                output_schema: clone_text(&request.schema),
                route: route.clone(),
                system_prompt_append: request.system.clone(),
                memory,
                prior_session,
                timeout: add_grace(timeout),
            },
        )
    }
}

/// The error for an alias that is missing or bound to another worker.
fn unknown_model(role: &'static str, alias: &String) -> (r: RoleError)
    ensures
        r == (RoleError::UnknownModel { role, alias: *alias }),
{
    RoleError::UnknownModel { role, alias: alias.clone() }
}

/// The message says that the output broke the schema.
pub open spec fn reports_violation(message: Seq<char>) -> bool {
    has_prefix(trim_start_of(message), "schema_violation"@)
}

fn is_schema_violation(message: &str) -> (b: bool)
    ensures
        b == reports_violation(message@),
{
    let trimmed = trim_start(message);
    starts_with(trimmed.as_str(), "schema_violation")
}

/// The message says that the attempt timed out.
pub open spec fn reports_timeout(message: Seq<char>) -> bool {
    let m = lower_of(trim_of(message));
    m == "timeout"@ || occurs_in(m, "timed out"@)
}

fn is_timeout(message: &str) -> (b: bool)
    ensures
        b == reports_timeout(message@),
{
    let trimmed = trim(message);
    let m = to_lower(trimmed.as_str());
    same(m.as_str(), "timeout") || contains(m.as_str(), "timed out")
}

/// What the end of the attempt amounts to.
pub open spec fn turn_ended(
    role: &'static str,
    timeout: Span,
    end: TurnEnd,
    session: Option<String>,
    r: Result<Turn, RoleError>,
) -> bool {
    match end {
        TurnEnd::SpawnFailed { message } => r == Err::<Turn, RoleError>(
            RoleError::Spawn { role, source: message },
        ),
        TurnEnd::TimedOut => r == Err::<Turn, RoleError>(RoleError::Timeout { role, timeout }),
        TurnEnd::Succeeded { text, structured, usage, session_id } => r == Ok::<
            Turn,
            RoleError,
        >(
            Turn {
                answer: TurnAnswer::Text(
                    match structured {
                        Some(value) => value,
                        None => text,
                    },
                ),
                usage: usage.domain(),
                session_id: match session_id {
                    Some(id) => Some(id),
                    None => session,
                },
            },
        ),
        TurnEnd::Failed { class, message, usage } => if reports_timeout(message@) {
            r == Err::<Turn, RoleError>(RoleError::Timeout { role, timeout })
        } else if reports_violation(message@) {
            r matches Ok(turn) && turn.usage == usage.domain() && turn.session_id == session
                && (turn.answer matches TurnAnswer::SchemaViolation(
                StructuredError::SchemaViolation { errors },
            ) && errors@ == seq![message])
        } else {
            r == Err::<Turn, RoleError>(
                RoleError::WorkerFailed { role, class, message, usage: usage.domain() },
            )
        },
    }
}

/// What the end of the attempt amounts to; `session` is the session that the
/// worker last reported while it ran. A failure that reports a timeout is a
/// timeout, one that reports a schema violation is an answer to repair, and any
/// other fails the call.
pub fn finish_turn(
    role: &'static str,
    timeout: Span,
    end: TurnEnd,
    session: Option<String>,
) -> (r: Result<Turn, RoleError>)
    ensures
        turn_ended(role, timeout, end, session, r),
{
    match end {
        TurnEnd::SpawnFailed { message } => Err(RoleError::Spawn { role, source: message }),
        TurnEnd::TimedOut => Err(RoleError::Timeout { role, timeout }),
        TurnEnd::Succeeded { text, structured, usage, session_id } => {
            let text = match structured {
                Some(value) => value,
                None => text,
            };
            let session_id = match session_id {
                Some(id) => Some(id),
                None => session,
            };
            Ok(Turn { answer: TurnAnswer::Text(text), usage: usage_from_worker(&usage), session_id })
        },
        TurnEnd::Failed { class, message, usage } => {
            if is_timeout(message.as_str()) {
                Err(RoleError::Timeout { role, timeout })
            } else if is_schema_violation(message.as_str()) {
                let mut errors: Vec<String> = Vec::new();
                errors.push(message);
                Ok(
                    Turn {
                        answer: TurnAnswer::SchemaViolation(
                            StructuredError::SchemaViolation { errors },
                        ),
                        usage: usage_from_worker(&usage),
                        session_id: session,
                    },
                )
            } else {
                Err(
                    RoleError::WorkerFailed {
                        role,
                        class,
                        message,
                        usage: usage_from_worker(&usage),
                    },
                )
            }
        },
    }
}

/// The error of an answer, where it is one.
pub open spec fn reading_error<O>(role: &'static str, reading: Reading<O>) -> Option<RoleError> {
    match reading {
        Reading::Parsed(Ok(_)) => None,
        Reading::Parsed(Err(e)) => Some(e),
        Reading::SchemaViolation(source) => Some(RoleError::Output { role, source }),
    }
}

/// What follows the first turn.
pub open spec fn first_read<O>(
    role: &'static str,
    has_schema: bool,
    reading: Reading<O>,
    usage: Usage,
    session_id: Option<String>,
    r: CallStep<O>,
) -> bool {
    match reading_error(role, reading) {
        None => reading matches Reading::Parsed(Ok(output)) && r == (CallStep::Done {
            output,
            usage,
        }),
        Some(error) => if error.schema_violation() && has_schema {
            error matches RoleError::Output { source, .. } && r == (CallStep::<O>::Repair {
                error: source,
                session_id,
                usage,
            })
        } else {
            r == (CallStep::<O>::Failed { error })
        },
    }
}

/// What follows the first turn: an output is the result, a schema violation of a
/// role with a schema is repaired, and any other error fails the call.
pub fn after_first<O>(
    role: &'static str,
    has_schema: bool,
    reading: Reading<O>,
    usage: Usage,
    session_id: Option<String>,
) -> (r: CallStep<O>)
    ensures
        first_read(role, has_schema, reading, usage, session_id, r),
{
    let error = match reading {
        Reading::Parsed(Ok(output)) => {
            return CallStep::Done { output, usage };
        },
        Reading::Parsed(Err(error)) => error,
        Reading::SchemaViolation(source) => RoleError::Output { role, source },
    };
    if error.is_schema_violation() && has_schema {
        match error {
            RoleError::Output { source, .. } => CallStep::Repair {
                error: source,
                session_id,
                usage,
            },
            other => CallStep::Failed { error: other },
        }
    } else {
        CallStep::Failed { error }
    }
}

/// What the call comes to after the repair turn.
pub open spec fn second_read<O>(
    role: &'static str,
    first_usage: Usage,
    reading: Reading<O>,
    usage: Usage,
    r: Option<Result<(O, Usage), RoleError>>,
) -> bool {
    match first_usage.plus_spec(usage) {
        None => r is None,
        Some(total) => match reading_error(role, reading) {
            Some(error) => r == Some(Err::<(O, Usage), RoleError>(error)),
            None => reading matches Reading::Parsed(Ok(output)) && r == Some(
                Ok::<(O, Usage), RoleError>((output, total)),
            ),
        },
    }
}

/// What the call comes to after the repair turn: an output with the usage of both
/// turns, or an error, but never another turn. `None` where the costs of the two
/// turns together are out of range.
pub fn after_second<O>(
    role: &'static str,
    first_usage: Usage,
    reading: Reading<O>,
    usage: Usage,
) -> (r: Option<Result<(O, Usage), RoleError>>)
    requires
        first_usage.wf(),
        usage.wf(),
    ensures
        second_read(role, first_usage, reading, usage, r),
{
    match first_usage.plus(&usage) {
        None => None,
        Some(total) => match reading {
            Reading::Parsed(Ok(output)) => Some(Ok((output, total))),
            Reading::Parsed(Err(error)) => Some(Err(error)),
            Reading::SchemaViolation(source) => Some(Err(RoleError::Output { role, source })),
        },
    }
}

/// The message of the repair turn.
pub open spec fn repair_text(user: Seq<char>, repair: Seq<char>, has_session: bool) -> Seq<char> {
    if has_session {
        repair
    } else {
        user + "\n\n---\n\n"@ + repair
    }
}

/// The message of the repair turn: on a session the repair instruction alone, and
/// without one the request again with the instruction below it.
pub fn repair_message(user: &str, repair: &str, has_session: bool) -> (r: String)
    ensures
        r@ == repair_text(user@, repair@, has_session),
{
    if has_session {
        repair.to_owned()
    } else {
        let head = cat(user, "\n\n---\n\n");
        cat(head.as_str(), repair)
    }
}

// ---------------------------------------------------------------------------
// Laws
// ---------------------------------------------------------------------------
/// A turn is asked for exactly where the worker is there and the model is its own;
/// a missing worker goes before an unknown model. The attempt is the role's: of its
/// kind, under its name, with its policy, its schema and its prompts, and with a
/// little more time than the role has.
pub proof fn law_a_turn_is_the_roles(
    runner: RoleRunner,
    key: Seq<char>,
    kind: TaskKind,
    policy: WorkspacePolicy,
    request: RoleRequest,
    route: Route,
    memory: Option<MemoryBlock>,
    timeout: Span,
    message: String,
    prior_session: Option<String>,
    worker_known: bool,
    model_worker: Option<WorkerKind>,
    r: Result<TurnRequest, RoleError>,
)
    requires
        turn_asked(
            runner,
            key,
            kind,
            policy,
            request,
            route,
            memory,
            timeout,
            message,
            prior_session,
            worker_known,
            model_worker,
            r,
        ),
    ensures
        r is Ok <==> worker_known && (model_worker matches Some(w) && w.name@
            == route.worker.name@),
        !worker_known ==> (r matches Err(e) && e is WorkerUnavailable),
        worker_known && r is Err ==> r->Err_0 is UnknownModel,
        r matches Ok(turn) ==> {
            &&& turn.run_id == runner.run_id && turn.workspace == runner.workspace
            &&& turn.kind == kind && turn.title@ == key && turn.workspace_policy == policy
            &&& turn.instructions == message && turn.output_schema == request.schema
                && turn.system_prompt_append == request.system
            &&& turn.route == route && turn.prior_session == prior_session
            &&& memory is None <==> turn.memory is None
            &&& timeout.secs <= 1_000_000_000 ==> turn.timeout == (Span {
                secs: (timeout.secs + 5) as u64,
                nanos: timeout.nanos,
            })
        },
{
}

/// What a turn came to: an attempt that did not start, took too long or says so is
/// an error; its structured output goes before its text; and a failure that reports
/// a schema violation is an answer that can be repaired. The last session counts.
pub proof fn law_turns_end_as_the_worker_says(
    role: &'static str,
    timeout: Span,
    end: TurnEnd,
    session: Option<String>,
    r: Result<Turn, RoleError>,
)
    requires
        turn_ended(role, timeout, end, session, r),
    ensures
        end is SpawnFailed ==> (r matches Err(e) && e is Spawn),
        end is TimedOut ==> (r matches Err(e) && e is Timeout),
        end matches TurnEnd::Succeeded { text, structured, usage, session_id } ==> (
        r matches Ok(turn) && (structured is Some ==> turn.answer == TurnAnswer::Text(
            structured->0,
        )) && (structured is None ==> turn.answer == TurnAnswer::Text(text))
            && turn.usage.input_tokens == usage.input_tokens && turn.usage.output_tokens
            == usage.output_tokens && turn.usage.cost_usd == usage.cost_usd && (session_id is Some
            ==> turn.session_id == session_id) && (session_id is None ==> turn.session_id
            == session)),
        end matches TurnEnd::Failed { class, message, usage } ==> {
            &&& reports_timeout(message@) ==> (r matches Err(e) && e is Timeout)
            &&& !reports_timeout(message@) && reports_violation(message@) ==> (r matches Ok(turn)
                && turn.answer is SchemaViolation && turn.session_id == session
                && turn.usage.input_tokens == usage.input_tokens && turn.usage.output_tokens
                == usage.output_tokens && turn.usage.cost_usd == usage.cost_usd)
            &&& !reports_timeout(message@) && !reports_violation(message@) ==> (r matches Err(
                RoleError::WorkerFailed { class: c, message: m, usage: u, .. },
            ) && c == class && m == message && u.input_tokens == usage.input_tokens
                && u.output_tokens == usage.output_tokens)
        },
{
}

/// A schema violation is repaired once: the first answer that breaks the schema of
/// a role that has one buys a second turn on the same session, with what the first
/// one used kept. Any other error fails the call, and an output is its result.
pub proof fn law_a_broken_schema_is_repaired<O>(
    role: &'static str,
    has_schema: bool,
    reading: Reading<O>,
    usage: Usage,
    session_id: Option<String>,
    r: CallStep<O>,
)
    requires
        first_read(role, has_schema, reading, usage, session_id, r),
    ensures
        reading matches Reading::Parsed(Ok(output)) ==> r == (CallStep::Done { output, usage }),
        reading matches Reading::SchemaViolation(source) ==> (source is SchemaViolation
            && has_schema ==> r == (CallStep::<O>::Repair { error: source, session_id, usage })) && (
        !has_schema || !(source is SchemaViolation) ==> r is Failed),
        reading matches Reading::Parsed(Err(e)) ==> (has_schema && (e matches RoleError::Output {
            source,
            ..
        } && source is SchemaViolation) <==> r is Repair),
        reading matches Reading::Parsed(Err(e)) ==> !(r is Done),
        r is Repair ==> has_schema,
{
}

/// After the second turn there is no third: its output is the result, with what
/// both turns used, and its error is the error of the call.
pub proof fn law_there_is_no_third_turn<O>(
    role: &'static str,
    first: Usage,
    reading: Reading<O>,
    usage: Usage,
    r: Option<Result<(O, Usage), RoleError>>,
)
    requires
        second_read(role, first, reading, usage, r),
    ensures
        (first.cost_usd is None || usage.cost_usd is None) ==> r is Some,
        r matches Some(Ok((output, total))) ==> reading == Reading::Parsed(
            Ok::<O, RoleError>(output),
        ) && (first.input_tokens + usage.input_tokens <= u64::MAX ==> total.input_tokens
            == first.input_tokens + usage.input_tokens) && (first.output_tokens
            + usage.output_tokens <= u64::MAX ==> total.output_tokens == first.output_tokens
            + usage.output_tokens),
        reading is SchemaViolation ==> !(r matches Some(Ok(_))),
        (reading matches Reading::Parsed(Err(_))) ==> !(r matches Some(Ok(_))),
        (reading matches Reading::Parsed(Ok(_))) && r is Some ==> r->0 is Ok,
{
}

/// The effort of a call goes before that of its route, and the rest of the route
/// stays.
pub proof fn law_the_calls_effort_goes_first(route: Route, effort: Option<String>)
    ensures
        effort is Some ==> route_of_call(route, effort).effort == effort,
        effort is None ==> route_of_call(route, effort).effort == route.effort,
        route_of_call(route, effort).worker == route.worker,
        route_of_call(route, effort).model == route.model,
{
}

/// On a session the repair is asked for alone; without one the request comes
/// again, with the repair below it.
pub proof fn law_a_repair_repeats_the_request_without_a_session(
    user: Seq<char>,
    repair: Seq<char>,
)
    ensures
        repair_text(user, repair, true) == repair,
        repair_text(user, repair, false) == user + "\n\n---\n\n"@ + repair,
{
}

/// A failure is a timeout when its message, whatever its case and the white space
/// around it, is that word or says that something timed out; and a schema
/// violation when it begins with that mark.
pub proof fn law_timeouts_and_violations_are_told_apart(message: Seq<char>)
    ensures
        lower_of(trim_of(message)) == "timeout"@ ==> reports_timeout(message),
        occurs_in(lower_of(trim_of(message)), "timed out"@) ==> reports_timeout(message),
        lower_of(trim_of(message)) != "timeout"@ && !occurs_in(
            lower_of(trim_of(message)),
            "timed out"@,
        ) ==> !reports_timeout(message),
        reports_violation(message) <==> has_prefix(trim_start_of(message), "schema_violation"@),
{
}

} // verus!
