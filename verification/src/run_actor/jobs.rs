//! The jobs of a run, step by step: understanding, planning, integration and
//! judgement. Each step takes what came back and says what is next.
use vstd::prelude::*;

use super::actor::{Failure, FailureView, ReasonView};
use super::integration::{PhaseOutcome, RunEvaluation};
use super::schedule::{no_route_text, role_route, route_of, RoleRoutes};
use crate::commands::{default_answer, is_default_answer, AskQuestion};
use crate::domain::{
    Answer, ArtifactRef, FailureClass, Goal, QuestionId, QuestionOption, QuestionPolicy, Role,
    Route, RunId, RunMode, Span, Usage, Workspace,
};
use crate::events::RunFailureReason;
use crate::ports::{
    AnsweredQuestion, IntegrateContext, IntegrateRequest, IntegrationOutcome, PortError,
    RoleContext,
};
use crate::roles::clarifier::{
    asked_of, assumed_of, assumption_for, assumption_of, candidates_of, contains_index, is_asked,
    law_candidates, law_every_proposal_is_asked_or_assumed, lemma_asked_places, places_of, policy_of,
    questions_to_ask,
};
use crate::roles::context::{Plan, ProposedQuestion, SystemContextSection, Understanding};
use crate::text::{cat, copy_strings, join, join_of, push_line, views};

verus! {

/// The job ends with this failure of the run.
pub open spec fn fails_with(outcome: PhaseOutcome, failure: FailureView) -> bool {
    outcome matches PhaseOutcome::Failed(f) && f@ == failure
}

/// A failure for another reason than the usual ones.
pub open spec fn other_failure(
    reason: Seq<char>,
    class: FailureClass,
    message: Seq<char>,
) -> FailureView {
    FailureView { reason: ReasonView::Other(reason), class, message: Some(message) }
}

fn fail_other(reason: &str, class: FailureClass, message: String) -> (r: PhaseOutcome)
    ensures
        fails_with(r, other_failure(reason@, class, message@)),
{
    PhaseOutcome::Failed(
        Failure {
            reason: RunFailureReason::Other(reason.to_owned()),
            class,
            message: Some(message),
        },
    )
}

/// The planner's route; without one the run fails.
pub fn planner_route(config: &RoleRoutes) -> (r: Result<Route, PhaseOutcome>)
    ensures
        match route_of(*config, Role::Planner) {
            Some(route) => r == Ok::<Route, PhaseOutcome>(route),
            None => r matches Err(outcome) && fails_with(
                outcome,
                other_failure(
                    "no_planner_route"@,
                    FailureClass::Permanent,
                    no_route_text(*config, Role::Planner),
                ),
            ),
        },
{
    match role_route(config, Role::Planner) {
        Ok(route) => Ok(route),
        Err(message) => Err(fail_other("no_planner_route", FailureClass::Permanent, message)),
    }
}

// ---------------------------------------------------------------------------
// Understanding
// ---------------------------------------------------------------------------
/// What the planner's first call is given.
pub fn understanding_context(
    run_id: RunId,
    goal: Goal,
    mode: RunMode,
    route: Route,
    effort: Option<String>,
    memory: Option<String>,
    system_context: Vec<SystemContextSection>,
) -> (r: RoleContext)
    ensures
        r.run_id == run_id,
        r.goal == goal,
        r.mode == mode,
        r.memory == memory,
        r.system_context == system_context,
        r.understanding is None,
        r.answers@.len() == 0,
        r.previous_plan is None,
        r.feedback is None,
        r.repair_errors@.len() == 0,
        r.route == route,
        r.effort == effort,
{
    let mut ctx = RoleContext::new(run_id, goal, mode, route);
    ctx.effort = effort;
    ctx.memory = memory;
    ctx.system_context = system_context;
    ctx
}

/// An understanding with its assumptions filled in, and the questions to ask.
#[derive(Debug, PartialEq, Eq)]
pub struct Clarified {
    pub understanding: Understanding,
    pub usage: Usage,
    /// Places among the proposed questions.
    pub to_ask: Vec<usize>,
}

/// The candidates that are asked: all but those of a Kohral run without a
/// recommended option.
pub open spec fn asked_places(
    qs: Seq<ProposedQuestion>,
    candidates: Seq<usize>,
    kohral: bool,
) -> Seq<usize>
    decreases candidates.len(),
{
    if candidates.len() == 0 {
        Seq::empty()
    } else {
        let before = asked_places(qs, candidates.drop_last(), kohral);
        if !kohral || qs[candidates.last() as int].recommended() is Some {
            before.push(candidates.last())
        } else {
            before
        }
    }
}

/// One assumption for each of the first `n` proposals that is not asked, in the
/// order proposed.
pub open spec fn left_out(qs: Seq<ProposedQuestion>, to_ask: Seq<usize>, n: nat) -> Seq<Seq<char>>
    decreases n,
{
    if n == 0 {
        Seq::empty()
    } else {
        let before = left_out(qs, to_ask, (n - 1) as nat);
        if to_ask.contains((n - 1) as usize) {
            before
        } else {
            before.push(assumption_of(qs[n - 1]))
        }
    }
}

/// The same understanding but for its assumptions.
pub open spec fn same_but_assumptions(a: Understanding, b: Understanding) -> bool {
    a == (Understanding { assumptions: a.assumptions, ..b })
}

fn ask_places(questions: &Vec<ProposedQuestion>, candidates: &Vec<usize>, kohral: bool) -> (r: Vec<
    usize,
>)
    requires
        forall|k: int| 0 <= k < candidates@.len() ==> (#[trigger] candidates@[k]) < questions@.len(),
    ensures
        r@ == asked_places(questions@, candidates@, kohral),
        forall|k: int| 0 <= k < r@.len() ==> (#[trigger] r@[k]) < questions@.len(),
{
    let mut out: Vec<usize> = Vec::new();
    let mut i: usize = 0;
    while i < candidates.len()
        invariant
            i <= candidates@.len(),
            forall|k: int|
                0 <= k < candidates@.len() ==> (#[trigger] candidates@[k]) < questions@.len(),
            out@ == asked_places(questions@, candidates@.subrange(0, i as int), kohral),
            forall|k: int| 0 <= k < out@.len() ==> (#[trigger] out@[k]) < questions@.len(),
        decreases candidates@.len() - i,
    {
        let place: usize = candidates[i];
        proof {
            let next = candidates@.subrange(0, i + 1);
            assert(next.drop_last() =~= candidates@.subrange(0, i as int));
            assert(next.last() == place);
        }
        if !kohral || questions[place].recommended_option().is_some() {
            out.push(place);
        }
        i = i + 1;
    }
    assert(candidates@.subrange(0, candidates@.len() as int) =~= candidates@);
    out
}

/// What is made of the planner's answer.
pub open spec fn clarified(
    reply: Result<(Understanding, Usage), PortError>,
    mode: RunMode,
    threshold: u32,
    max_questions: usize,
    r: Result<Clarified, PhaseOutcome>,
) -> bool {
    match reply {
        Err(error) => r matches Err(outcome) && fails_with(
            outcome,
            other_failure("understanding_failed"@, error.class, error.message@),
        ),
        Ok((given, usage)) => r matches Ok(c) && {
            let qs = given.proposed_questions@;
            &&& c.usage == usage
            &&& same_but_assumptions(c.understanding, given)
            &&& c.to_ask@ == asked_places(
                qs,
                candidates_of(qs, threshold, max_questions),
                mode.kohral(),
            )
            &&& forall|k: int| 0 <= k < c.to_ask@.len() ==> (#[trigger] c.to_ask@[k]) < qs.len()
            &&& views(c.understanding.assumptions@) == views(given.assumptions@) + left_out(
                qs,
                c.to_ask@,
                qs.len(),
            )
        },
    }
}

/// What is made of the planner's answer: the proposals below the threshold are
/// asked, as far as the limit and the mode allow, and each of the others becomes
/// an assumption. A failed call fails the run.
pub fn clarify(
    reply: Result<(Understanding, Usage), PortError>,
    mode: &RunMode,
    threshold: u32,
    max_questions: usize,
) -> (r: Result<Clarified, PhaseOutcome>)
    ensures
        clarified(reply, *mode, threshold, max_questions, r),
{
    let (given, usage) = match reply {
        Ok(pair) => pair,
        Err(error) => {
            return Err(fail_other("understanding_failed", error.class, error.message));
        },
    };
    let mut understanding = given;
    let candidates = questions_to_ask(
        &understanding.proposed_questions,
        threshold,
        max_questions,
    );
    let to_ask = ask_places(&understanding.proposed_questions, &candidates, mode.is_kohral());
    let mut assumptions = copy_strings(&understanding.assumptions);
    let ghost base = views(given.assumptions@);
    let ghost qs = given.proposed_questions@;
    let mut i: usize = 0;
    assert(base + left_out(qs, to_ask@, 0) =~= base);
    while i < understanding.proposed_questions.len()
        invariant
            i <= understanding.proposed_questions@.len(),
            understanding == given,
            qs == given.proposed_questions@,
            base == views(given.assumptions@),
            views(assumptions@) == base + left_out(qs, to_ask@, i as nat),
        decreases understanding.proposed_questions@.len() - i,
    {
        if !contains_index(&to_ask, i) {
            push_line(&mut assumptions, assumption_for(&understanding.proposed_questions[i]));
            assert(base + left_out(qs, to_ask@, (i + 1) as nat) =~= (base + left_out(
                qs,
                to_ask@,
                i as nat,
            )).push(assumption_of(qs[i as int])));
        }
        i = i + 1;
    }
    understanding.assumptions = assumptions;
    Ok(Clarified { understanding, usage, to_ask })
}

/// The policy and default of a clarification: interactive runs wait, other runs
/// take the recommended option at once or wait for the timeout.
pub open spec fn is_clarification(
    mode: RunMode,
    q: ProposedQuestion,
    timeout: Span,
    policy: QuestionPolicy,
    default: Option<Answer>,
) -> bool {
    if mode is Interactive {
        policy == QuestionPolicy::Block && default is None
    } else {
        match q.recommended() {
            Some(option) => policy == QuestionPolicy::immediate() && (default matches Some(answer)
                && is_default_answer(answer, option.label@)),
            None => policy == (QuestionPolicy::DefaultAfter { timeout }) && default is None,
        }
    }
}

/// The policy and default of a clarification.
pub fn clarification_policy(mode: &RunMode, proposed: &ProposedQuestion, timeout: Span) -> (r: (
    QuestionPolicy,
    Option<Answer>,
))
    ensures
        is_clarification(*mode, *proposed, timeout, r.0, r.1),
{
    if mode.is_interactive() {
        return (QuestionPolicy::Block, None);
    }
    match proposed.recommended_option() {
        Some(option) => (
            QuestionPolicy::immediate_default(),
            Some(default_answer(option.label.as_str())),
        ),
        None => (QuestionPolicy::DefaultAfter { timeout }, None),
    }
}

fn copy_options(options: &Vec<QuestionOption>) -> (r: Vec<QuestionOption>)
    ensures
        r@ == options@,
{
    let mut out: Vec<QuestionOption> = Vec::new();
    let mut i: usize = 0;
    while i < options.len()
        invariant
            i <= options@.len(),
            out@ == options@.subrange(0, i as int),
        decreases options@.len() - i,
    {
        out.push(options[i].clone());
        i = i + 1;
        assert(out@ =~= options@.subrange(0, i as int));
    }
    assert(options@.subrange(0, options@.len() as int) =~= options@);
    out
}

/// The command asks this clarification.
pub open spec fn asks(
    ask: AskQuestion,
    id: QuestionId,
    run_id: RunId,
    q: ProposedQuestion,
    mode: RunMode,
    timeout: Span,
) -> bool {
    &&& ask.question_id == id
    &&& ask.run_id == run_id
    &&& ask.task_id is None
    &&& ask.text == q.text
    &&& ask.options@ == q.options@
    &&& ask.multi_select == q.multi_select
    &&& is_clarification(mode, q, timeout, ask.policy, ask.default)
}

/// The commands that ask the questions, each under its id.
pub fn clarifications(
    questions: &Vec<ProposedQuestion>,
    to_ask: &Vec<usize>,
    ids: &Vec<QuestionId>,
    run_id: RunId,
    mode: &RunMode,
    timeout: Span,
) -> (r: Vec<AskQuestion>)
    requires
        ids@.len() == to_ask@.len(),
        forall|k: int| 0 <= k < to_ask@.len() ==> (#[trigger] to_ask@[k]) < questions@.len(),
    ensures
        r@.len() == to_ask@.len(),
        forall|k: int|
            0 <= k < r@.len() ==> asks(
                #[trigger] r@[k],
                ids@[k],
                run_id,
                questions@[to_ask@[k] as int],
                *mode,
                timeout,
            ),
{
    let mut out: Vec<AskQuestion> = Vec::new();
    let mut i: usize = 0;
    while i < to_ask.len()
        invariant
            i <= to_ask@.len(),
            ids@.len() == to_ask@.len(),
            forall|k: int| 0 <= k < to_ask@.len() ==> (#[trigger] to_ask@[k]) < questions@.len(),
            out@.len() == i,
            forall|k: int|
                0 <= k < i ==> asks(
                    #[trigger] out@[k],
                    ids@[k],
                    run_id,
                    questions@[to_ask@[k] as int],
                    *mode,
                    timeout,
                ),
        decreases to_ask@.len() - i,
    {
        let q = &questions[to_ask[i]];
        let (policy, default) = clarification_policy(mode, q, timeout);
        out.push(
            AskQuestion {
                question_id: ids[i],
                run_id,
                task_id: None,
                text: q.text.clone(),
                options: copy_options(&q.options),
                multi_select: q.multi_select,
                default,
                policy,
            },
        );
        i = i + 1;
    }
    out
}

/// What recording the understanding leads to.
pub open spec fn understanding_recorded(
    refusal: Option<String>,
    invalid_transition: bool,
    r: Option<PhaseOutcome>,
) -> bool {
    match refusal {
        Some(message) if !invalid_transition => r matches Some(outcome) && fails_with(
            outcome,
            other_failure("understanding_failed"@, FailureClass::Permanent, message@),
        ),
        _ => r is None,
    }
}

/// What became of recording the understanding: a refusal fails the run, unless
/// the run is past it already.
pub fn after_understanding(refusal: Option<String>, invalid_transition: bool) -> (r: Option<
    PhaseOutcome,
>)
    ensures
        understanding_recorded(refusal, invalid_transition, r),
{
    match refusal {
        Some(message) => if invalid_transition {
            None
        } else {
            Some(fail_other("understanding_failed", FailureClass::Permanent, message))
        },
        None => None,
    }
}

// ---------------------------------------------------------------------------
// Planning
// ---------------------------------------------------------------------------
/// What the planner's second call is given.
pub fn planning_context(
    run_id: RunId,
    goal: Goal,
    mode: RunMode,
    route: Route,
    effort: Option<String>,
    understanding: Option<Understanding>,
    answers: Vec<AnsweredQuestion>,
    previous_plan: Option<Plan>,
    feedback: Option<String>,
    memory: Option<String>,
    system_context: Vec<SystemContextSection>,
) -> (r: RoleContext)
    ensures
        r.run_id == run_id,
        r.goal == goal,
        r.mode == mode,
        r.memory == memory,
        r.system_context == system_context,
        r.understanding == understanding,
        r.answers == answers,
        r.previous_plan == previous_plan,
        r.feedback == feedback,
        r.repair_errors@.len() == 0,
        r.route == route,
        r.effort == effort,
{
    let mut ctx = RoleContext::new(run_id, goal, mode, route);
    ctx.effort = effort;
    ctx.understanding = understanding;
    ctx.answers = answers;
    ctx.previous_plan = previous_plan;
    ctx.feedback = feedback;
    ctx.memory = memory;
    ctx.system_context = system_context;
    ctx
}

/// What the repair call is given on top.
pub fn repair_context(ctx: RoleContext, errors: Vec<String>, plan: Plan) -> (r: RoleContext)
    ensures
        r == (RoleContext { repair_errors: errors, previous_plan: Some(plan), ..ctx }),
{
    let mut r = ctx;
    r.repair_errors = errors;
    r.previous_plan = Some(plan);
    r
}

/// What follows a planner's call.
#[derive(Debug, PartialEq, Eq)]
#[allow(inconsistent_fields)]
pub enum PlanStep {
    /// The job is over.
    End(PhaseOutcome),
    /// The plan is invalid: call once more, with the errors.
    Repair { plan: Plan, errors: Vec<String>, usage: Usage },
    Propose { plan: Plan, usage: Usage },
    /// The costs of the two calls together are out of range.
    OutOfRange,
}

/// A plan that is not valid fails the run.
pub open spec fn invalid_plan(errors: Seq<String>) -> FailureView {
    FailureView {
        reason: ReasonView::InvalidPlan,
        class: FailureClass::Permanent,
        message: Some(join_of(views(errors), "; "@)),
    }
}

fn fail_invalid_plan(errors: &Vec<String>) -> (r: PhaseOutcome)
    ensures
        fails_with(r, invalid_plan(errors@)),
{
    PhaseOutcome::Failed(
        Failure {
            reason: RunFailureReason::InvalidPlan,
            class: FailureClass::Permanent,
            message: Some(join(errors, "; ")),
        },
    )
}

/// What the planner's first plan leads to.
pub open spec fn plan_taken(
    reply: Result<(Plan, Usage), PortError>,
    errors: Vec<String>,
    step: PlanStep,
) -> bool {
    match reply {
        Err(error) => step matches PlanStep::End(outcome) && fails_with(
            outcome,
            other_failure("planning_failed"@, error.class, error.message@),
        ),
        Ok((plan, usage)) => step == (if errors@.len() == 0 {
            PlanStep::Propose { plan, usage }
        } else {
            PlanStep::Repair { plan, errors, usage }
        }),
    }
}

/// What follows the first call; `errors` are those of the validator, if any. A
/// valid plan is proposed, an invalid one repaired, and a failed call fails the
/// run.
pub fn after_plan(reply: Result<(Plan, Usage), PortError>, errors: Vec<String>) -> (r: PlanStep)
    ensures
        plan_taken(reply, errors, r),
{
    match reply {
        Err(error) => PlanStep::End(fail_other("planning_failed", error.class, error.message)),
        Ok((plan, usage)) => if errors.len() == 0 {
            PlanStep::Propose { plan, usage }
        } else {
            PlanStep::Repair { plan, errors, usage }
        },
    }
}

/// What the repaired plan leads to.
pub open spec fn repair_taken(
    first_usage: Usage,
    reply: Result<(Plan, Usage), PortError>,
    errors: Vec<String>,
    step: PlanStep,
) -> bool {
    match reply {
        Err(error) => step matches PlanStep::End(outcome) && fails_with(
            outcome,
            FailureView {
                reason: ReasonView::InvalidPlan,
                class: error.class,
                message: Some(error.message@),
            },
        ),
        Ok((plan, usage)) => match first_usage.plus_spec(usage) {
            None => step == PlanStep::OutOfRange,
            Some(total) => if errors@.len() == 0 {
                step == (PlanStep::Propose { plan, usage: total })
            } else {
                step matches PlanStep::End(outcome) && fails_with(outcome, invalid_plan(errors@))
            },
        },
    }
}

/// What follows the repair call: a valid plan is proposed with the usage of both
/// calls, and anything else fails the run. There is no third call.
pub fn after_repair(
    first_usage: Usage,
    reply: Result<(Plan, Usage), PortError>,
    errors: Vec<String>,
) -> (r: PlanStep)
    requires
        first_usage.wf(),
        reply matches Ok((_, usage)) ==> usage.wf(),
    ensures
        repair_taken(first_usage, reply, errors, r),
{
    match reply {
        Err(error) => PlanStep::End(
            PhaseOutcome::Failed(
                Failure {
                    reason: RunFailureReason::InvalidPlan,
                    class: error.class,
                    message: Some(error.message),
                },
            ),
        ),
        Ok((plan, usage)) => match first_usage.plus(&usage) {
            None => PlanStep::OutOfRange,
            Some(total) => if errors.len() == 0 {
                PlanStep::Propose { plan, usage: total }
            } else {
                PlanStep::End(fail_invalid_plan(&errors))
            },
        },
    }
}

/// What became of the proposal.
#[derive(Debug, PartialEq, Eq)]
pub enum Proposal {
    Recorded,
    /// The run is past it already.
    InvalidTransition,
    /// The run refuses the plan.
    InvalidPlan(Vec<String>),
    Failed(String),
}

/// What a proposal leads to.
pub open spec fn proposal_taken(proposal: Proposal, r: PhaseOutcome) -> bool {
    match proposal {
        Proposal::Recorded => r == PhaseOutcome::Noop,
        Proposal::InvalidTransition => r == PhaseOutcome::Noop,
        Proposal::InvalidPlan(errors) => fails_with(r, invalid_plan(errors@)),
        Proposal::Failed(message) => fails_with(
            r,
            other_failure("planning_failed"@, FailureClass::Permanent, message@),
        ),
    }
}

/// How the planning ends.
pub fn after_proposal(proposal: Proposal) -> (r: PhaseOutcome)
    ensures
        proposal_taken(proposal, r),
{
    match proposal {
        Proposal::Recorded => PhaseOutcome::Noop,
        Proposal::InvalidTransition => PhaseOutcome::Noop,
        Proposal::InvalidPlan(errors) => fail_invalid_plan(&errors),
        Proposal::Failed(message) => fail_other(
            "planning_failed",
            FailureClass::Permanent,
            message,
        ),
    }
}

// ---------------------------------------------------------------------------
// Integration
// ---------------------------------------------------------------------------
/// How results are integrated.
#[derive(Debug, Clone, Copy, PartialEq, Eq, Structural)]
pub enum Integration {
    Pr,
    Merge,
    Off,
}

/// What the workspace manager is asked for.
pub open spec fn asks_to_integrate(
    integration: Integration,
    run_id: RunId,
    goal: Goal,
    criteria: Seq<String>,
    summaries: Seq<String>,
    workspaces: Vec<Workspace>,
    r: Option<IntegrateRequest>,
) -> bool {
    &&& r is Some <==> integration != Integration::Off && workspaces@.len() > 0
    &&& r matches Some(request) ==> {
        &&& request.run_id == run_id
        &&& request.title == goal.text
        &&& request.summary@ == join_of(views(summaries), "\n"@)
        &&& request.acceptance_criteria@ == criteria
        &&& request.workspaces == workspaces
    }
}

/// What to ask the workspace manager for; nothing where integration is off or no
/// task left a workspace.
pub fn integration_request(
    integration: Integration,
    run_id: RunId,
    goal: &Goal,
    criteria: &Vec<String>,
    summaries: &Vec<String>,
    workspaces: Vec<Workspace>,
) -> (r: Option<IntegrateRequest>)
    ensures
        asks_to_integrate(integration, run_id, *goal, criteria@, summaries@, workspaces, r),
{
    if integration == Integration::Off || workspaces.len() == 0 {
        return None;
    }
    Some(
        IntegrateRequest {
            run_id,
            title: goal.text.clone(),
            summary: join(summaries, "\n"),
            acceptance_criteria: copy_strings(criteria),
            workspaces,
        },
    )
}

/// What the integration leads to.
pub open spec fn integration_taken(
    reply: Option<Result<IntegrationOutcome, PortError>>,
    task_artifacts: Vec<ArtifactRef>,
    r: Result<Vec<ArtifactRef>, PhaseOutcome>,
) -> bool {
    match reply {
        None => r == Ok::<Vec<ArtifactRef>, PhaseOutcome>(task_artifacts),
        Some(Err(error)) => r matches Err(outcome) && fails_with(
            outcome,
            FailureView {
                reason: ReasonView::IntegrationFailed,
                class: error.class,
                message: Some(error.message@),
            },
        ),
        Some(Ok(outcome)) => if outcome.conflicts@.len() > 0 {
            r == Err::<Vec<ArtifactRef>, PhaseOutcome>(
                PhaseOutcome::IntegrationConflicts { conflicts: outcome.conflicts },
            )
        } else {
            r == Ok::<Vec<ArtifactRef>, PhaseOutcome>(outcome.artifacts)
        },
    }
}

/// What follows the integration: its artifacts where nothing conflicted. `None`
/// for `reply` where nothing was integrated: the tasks' artifacts stand then.
pub fn after_integration(
    reply: Option<Result<IntegrationOutcome, PortError>>,
    task_artifacts: Vec<ArtifactRef>,
) -> (r: Result<Vec<ArtifactRef>, PhaseOutcome>)
    ensures
        integration_taken(reply, task_artifacts, r),
{
    match reply {
        None => Ok(task_artifacts),
        Some(Err(error)) => Err(
            PhaseOutcome::Failed(
                Failure {
                    reason: RunFailureReason::IntegrationFailed,
                    class: error.class,
                    message: Some(error.message),
                },
            ),
        ),
        Some(Ok(outcome)) => if !outcome.is_clean() {
            Err(PhaseOutcome::IntegrationConflicts { conflicts: outcome.conflicts })
        } else {
            Ok(outcome.artifacts)
        },
    }
}

/// The summary without the integrator's help.
pub open spec fn fallback_of(goal: Seq<char>, summaries: Seq<String>) -> Seq<char> {
    if summaries.len() == 0 {
        "Completed: "@ + goal
    } else {
        join_of(views(summaries), "; "@)
    }
}

/// The summary without the integrator's help.
pub fn fallback_summary(goal: &Goal, summaries: &Vec<String>) -> (r: String)
    ensures
        r@ == fallback_of(goal.text@, summaries@),
{
    if summaries.len() == 0 {
        cat("Completed: ", goal.text.as_str())
    } else {
        join(summaries, "; ")
    }
}

/// What the integrator is given; nothing where it has no route.
pub fn integrator_context(
    config: &RoleRoutes,
    run_id: RunId,
    goal: Goal,
    criteria: Vec<String>,
    summaries: Vec<String>,
    artifacts: Vec<ArtifactRef>,
) -> (r: Option<IntegrateContext>)
    ensures
        match route_of(*config, Role::Integrator) {
            None => r is None,
            Some(route) => r matches Some(ctx) && ctx.run_id == run_id && ctx.goal == goal
                && ctx.acceptance_criteria == criteria && ctx.task_summaries == summaries
                && ctx.artifacts == artifacts && ctx.conflicts@.len() == 0 && ctx.route == route,
        },
{
    match role_route(config, Role::Integrator) {
        Ok(route) => Some(
            IntegrateContext {
                run_id,
                goal,
                acceptance_criteria: criteria,
                task_summaries: summaries,
                artifacts,
                conflicts: Vec::new(),
                route,
            },
        ),
        Err(_) => None,
    }
}

/// How the integration ends.
pub open spec fn integration_end(
    artifacts: Vec<ArtifactRef>,
    summary: Option<String>,
    fallback: String,
) -> PhaseOutcome {
    PhaseOutcome::IntegrationDone {
        artifacts,
        summary: match summary {
            Some(s) => s,
            None => fallback,
        },
    }
}

/// How the integration ends: with the integrator's summary, or the fallback where
/// it gave none.
pub fn integrated(
    artifacts: Vec<ArtifactRef>,
    summary: Option<String>,
    fallback: String,
) -> (r: PhaseOutcome)
    ensures
        r == integration_end(artifacts, summary, fallback),
{
    let summary = match summary {
        Some(s) => s,
        None => fallback,
    };
    PhaseOutcome::IntegrationDone { artifacts, summary }
}

// ---------------------------------------------------------------------------
// Judgement
// ---------------------------------------------------------------------------
/// What the judge said.
#[derive(Debug, PartialEq, Eq)]
pub enum JudgeReply {
    /// There is no judge.
    Absent,
    Verdict(Option<RunEvaluation>),
    Failed,
    TimedOut,
}

/// What the judge's reply leads to.
pub open spec fn judgement_of(reply: JudgeReply) -> PhaseOutcome {
    PhaseOutcome::Evaluated(
        match reply {
            JudgeReply::Verdict(evaluation) => evaluation,
            _ => None,
        },
    )
}

/// How the judgement ends: a judge that is absent, fails or takes too long leaves
/// the run without a verdict, and never fails it.
pub fn judged(reply: JudgeReply) -> (r: PhaseOutcome)
    ensures
        r == judgement_of(reply),
{
    match reply {
        JudgeReply::Verdict(evaluation) => PhaseOutcome::Evaluated(evaluation),
        _ => PhaseOutcome::Evaluated(None),
    }
}

// ---------------------------------------------------------------------------
// Laws
// ---------------------------------------------------------------------------
/// Kohral runs ask only what has a recommended option.
pub proof fn law_kohral_asks_only_with_a_recommendation(
    qs: Seq<ProposedQuestion>,
    candidates: Seq<usize>,
    k: int,
)
    requires
        0 <= k < asked_places(qs, candidates, true).len(),
    ensures
        qs[asked_places(qs, candidates, true)[k] as int].recommended() is Some,
    decreases candidates.len(),
{
    if candidates.len() > 0 {
        let before = asked_places(qs, candidates.drop_last(), true);
        if k < before.len() {
            law_kohral_asks_only_with_a_recommendation(qs, candidates.drop_last(), k);
        }
    }
}

/// Kohral runs never wait: whatever they ask is answered with the recommended
/// option at once.
pub proof fn law_kohral_never_waits(
    qs: Seq<ProposedQuestion>,
    candidates: Seq<usize>,
    k: int,
    ask: AskQuestion,
    id: QuestionId,
    run_id: RunId,
    mode: RunMode,
    timeout: Span,
)
    requires
        mode is Kohral,
        0 <= k < asked_places(qs, candidates, true).len(),
        asks(ask, id, run_id, qs[asked_places(qs, candidates, true)[k] as int], mode, timeout),
    ensures
        ask.policy == QuestionPolicy::immediate(),
        ask.default matches Some(answer) && (
        qs[asked_places(qs, candidates, true)[k] as int].recommended() matches Some(option)
            && is_default_answer(answer, option.label@)),
{
    law_kohral_asks_only_with_a_recommendation(qs, candidates, k);
}

/// Other runs ask every candidate.
pub proof fn law_other_runs_ask_every_candidate(qs: Seq<ProposedQuestion>, candidates: Seq<usize>)
    ensures
        asked_places(qs, candidates, false) == candidates,
    decreases candidates.len(),
{
    if candidates.len() > 0 {
        law_other_runs_ask_every_candidate(qs, candidates.drop_last());
        assert(candidates.drop_last().push(candidates.last()) =~= candidates);
    } else {
        assert(candidates =~= Seq::<usize>::empty());
    }
}

proof fn lemma_asked_places_follow(
    qs: Seq<ProposedQuestion>,
    candidates: Seq<usize>,
    mode: RunMode,
    timeout: Span,
)
    ensures
        asked_places(qs, candidates, mode.kohral()) == places_of(qs, candidates, mode, timeout),
    decreases candidates.len(),
{
    let places = places_of(qs, candidates, mode, timeout);
    if candidates.len() > 0 {
        let rest = candidates.drop_last();
        lemma_asked_places_follow(qs, rest, mode, timeout);
        let before = places_of(qs, rest, mode, timeout);
        let last = candidates.last();
        if policy_of(mode, qs[last as int].recommended() is Some, timeout) is Some {
            assert(places =~= before.push(last));
        } else {
            assert(places =~= before);
        }
    } else {
        assert(places =~= Seq::<usize>::empty());
    }
}

proof fn lemma_left_out_follows(
    qs: Seq<ProposedQuestion>,
    candidates: Seq<usize>,
    mode: RunMode,
    timeout: Span,
    n: nat,
)
    requires
        n <= qs.len() <= usize::MAX,
        candidates.no_duplicates(),
    ensures
        left_out(qs, places_of(qs, candidates, mode, timeout), n) == assumed_of(
            qs,
            candidates,
            mode,
            timeout,
            n,
        ),
    decreases n,
{
    if n > 0 {
        lemma_left_out_follows(qs, candidates, mode, timeout, (n - 1) as nat);
        lemma_asked_places(qs, candidates, mode, timeout);
        let place = (n - 1) as usize;
        assert(places_of(qs, candidates, mode, timeout).contains(place) <==> is_asked(
            qs,
            candidates,
            mode,
            timeout,
            n - 1,
        ));
    }
}

/// What a run asks and assumes is what the clarifier selects: every proposal is
/// asked or becomes an assumption, and none both.
pub proof fn law_every_proposal_is_asked_or_noted(
    qs: Seq<ProposedQuestion>,
    threshold: u32,
    max: usize,
    mode: RunMode,
    timeout: Span,
)
    requires
        qs.len() <= usize::MAX,
    ensures
        ({
            let c = candidates_of(qs, threshold, max);
            let to_ask = asked_places(qs, c, mode.kohral());
            &&& to_ask == places_of(qs, c, mode, timeout)
            &&& left_out(qs, to_ask, qs.len()) == assumed_of(qs, c, mode, timeout, qs.len())
            &&& to_ask.len() + left_out(qs, to_ask, qs.len()).len() == qs.len()
        }),
{
    let c = candidates_of(qs, threshold, max);
    law_candidates(qs, threshold, max);
    lemma_asked_places_follow(qs, c, mode, timeout);
    lemma_left_out_follows(qs, c, mode, timeout, qs.len());
    law_every_proposal_is_asked_or_assumed(qs, threshold, max, mode, timeout);
    assert(places_of(qs, c, mode, timeout).len() == asked_of(qs, c, mode, timeout).len());
}

/// A plan without errors is proposed as it is; one with errors is sent back for
/// repair, with all of them. A call that failed fails the run, with the class of
/// its error.
pub proof fn law_a_valid_plan_is_proposed(
    reply: Result<(Plan, Usage), PortError>,
    errors: Vec<String>,
    step: PlanStep,
)
    requires
        plan_taken(reply, errors, step),
    ensures
        reply matches Ok((plan, usage)) ==> (errors@.len() == 0 ==> step == (PlanStep::Propose {
            plan,
            usage,
        })) && (errors@.len() > 0 ==> step == (PlanStep::Repair { plan, errors, usage })),
        reply matches Err(error) ==> (step matches PlanStep::End(PhaseOutcome::Failed(f)) && f.class
            == error.class && (f.message matches Some(m) && m@ == error.message@)),
        step is Propose ==> errors@.len() == 0,
        !(step is OutOfRange),
{
}

/// A plan is repaired once: a repaired plan without errors is proposed, with what
/// both calls used, and any other end of the repair fails the run as an invalid
/// plan. There is no third call.
pub proof fn law_a_plan_is_repaired_once(
    first: Usage,
    reply: Result<(Plan, Usage), PortError>,
    errors: Vec<String>,
    step: PlanStep,
)
    requires
        repair_taken(first, reply, errors, step),
    ensures
        !(step is Repair),
        step matches PlanStep::Propose { plan, usage } ==> errors@.len() == 0 && (
        reply matches Ok((p, second)) && p == plan && (first.input_tokens + second.input_tokens
            <= u64::MAX ==> usage.input_tokens == first.input_tokens + second.input_tokens) && (
        first.output_tokens + second.output_tokens <= u64::MAX ==> usage.output_tokens
            == first.output_tokens + second.output_tokens) && (first.wall_ms + second.wall_ms
            <= u64::MAX ==> usage.wall_ms == first.wall_ms + second.wall_ms)),
        reply is Ok && errors@.len() > 0 && !(step is OutOfRange) ==> (step matches PlanStep::End(
            PhaseOutcome::Failed(f),
        ) && f.reason is InvalidPlan && f.class == FailureClass::Permanent),
        reply matches Err(error) ==> (step matches PlanStep::End(PhaseOutcome::Failed(f))
            && f.reason is InvalidPlan && f.class == error.class),
{
    if let PlanStep::End(PhaseOutcome::Failed(f)) = step {
        assert(f@.reason == f.reason@);
    }
}

/// A recorded proposal, or one that the run is past, ends the planning quietly; a
/// refused one fails the run.
pub proof fn law_a_refused_plan_fails_the_run(proposal: Proposal, r: PhaseOutcome)
    requires
        proposal_taken(proposal, r),
    ensures
        proposal is Recorded || proposal is InvalidTransition <==> r is Noop,
        proposal is InvalidPlan ==> (r matches PhaseOutcome::Failed(f) && f.reason is InvalidPlan
            && f.class == FailureClass::Permanent),
        proposal is Failed ==> (r matches PhaseOutcome::Failed(f) && f.class
            == FailureClass::Permanent),
{
    if let PhaseOutcome::Failed(f) = r {
        assert(f@.reason == f.reason@);
    }
}

/// An understanding that could not be recorded fails the run, unless the run is
/// past it.
pub proof fn law_a_refused_understanding_fails_the_run(
    refusal: Option<String>,
    invalid_transition: bool,
    r: Option<PhaseOutcome>,
)
    requires
        understanding_recorded(refusal, invalid_transition, r),
    ensures
        r is Some <==> refusal is Some && !invalid_transition,
        r matches Some(outcome) ==> (outcome matches PhaseOutcome::Failed(f) && f.class
            == FailureClass::Permanent),
{
}

/// A planner's call that failed fails the run with its class. Otherwise its
/// understanding is kept as it is, but for the assumptions, which grow by those
/// for what is not asked; what is asked are proposals of it.
pub proof fn law_an_understanding_is_kept(
    reply: Result<(Understanding, Usage), PortError>,
    mode: RunMode,
    threshold: u32,
    max: usize,
    r: Result<Clarified, PhaseOutcome>,
)
    requires
        clarified(reply, mode, threshold, max, r),
    ensures
        reply is Ok <==> r is Ok,
        reply matches Err(error) ==> (r matches Err(PhaseOutcome::Failed(f)) && f.class
            == error.class),
        reply matches Ok((given, usage)) ==> (r matches Ok(c) && {
            &&& c.usage == usage
            &&& c.understanding == (Understanding {
                assumptions: c.understanding.assumptions,
                ..given
            })
            &&& c.understanding.assumptions@.len() >= given.assumptions@.len()
            &&& forall|i: int|
                0 <= i < given.assumptions@.len() ==> (
                #[trigger] c.understanding.assumptions@[i])@ == given.assumptions@[i]@
            &&& forall|k: int|
                0 <= k < c.to_ask@.len() ==> (#[trigger] c.to_ask@[k])
                    < given.proposed_questions@.len()
        }),
{
    if let Ok((given, usage)) = reply {
        let c = r->Ok_0;
        let out = views(c.understanding.assumptions@);
        let base = views(given.assumptions@);
        assert(out.len() == c.understanding.assumptions@.len());
        assert(base.len() == given.assumptions@.len());
        assert forall|i: int| 0 <= i < given.assumptions@.len() implies (
        #[trigger] c.understanding.assumptions@[i])@ == given.assumptions@[i]@ by {
            assert(out[i] == base[i]);
        }
    }
}

/// A clarification is asked of the run itself, as it was proposed. An interactive
/// run waits for a person. Any other run takes the recommended option at once, and
/// without one waits until the timeout.
pub proof fn law_clarifications_follow_the_mode(
    ask: AskQuestion,
    id: QuestionId,
    run_id: RunId,
    q: ProposedQuestion,
    mode: RunMode,
    timeout: Span,
)
    requires
        asks(ask, id, run_id, q, mode, timeout),
    ensures
        ask.question_id == id && ask.run_id == run_id && ask.task_id is None,
        ask.text == q.text && ask.options@ == q.options@ && ask.multi_select == q.multi_select,
        mode is Interactive ==> ask.policy == QuestionPolicy::Block && ask.default is None,
        !(mode is Interactive) && q.recommended() is Some ==> ask.policy
            == (QuestionPolicy::DefaultAfter { timeout: Span { secs: 0, nanos: 0 } }) && (
        ask.default matches Some(a) && a.selected@.len() == 1 && a.selected@[0]@
            == q.recommended()->0.label@),
        !(mode is Interactive) && q.recommended() is None ==> ask.policy
            == (QuestionPolicy::DefaultAfter { timeout }) && ask.default is None,
{
}

/// Results are integrated where integration is on and a task left a checkout:
/// under the goal, with all summaries, criteria and checkouts.
pub proof fn law_results_are_integrated_where_wanted(
    integration: Integration,
    run_id: RunId,
    goal: Goal,
    criteria: Seq<String>,
    summaries: Seq<String>,
    workspaces: Vec<Workspace>,
    r: Option<IntegrateRequest>,
)
    requires
        asks_to_integrate(integration, run_id, goal, criteria, summaries, workspaces, r),
    ensures
        integration == Integration::Off ==> r is None,
        workspaces@.len() == 0 ==> r is None,
        integration != Integration::Off && workspaces@.len() > 0 ==> (r matches Some(q) && q.run_id
            == run_id && q.title == goal.text && q.acceptance_criteria@ == criteria && q.workspaces
            == workspaces && q.summary@ == join_of(views(summaries), "\n"@)),
{
}

/// Conflicts are reported, an error fails the run for the integration, and a clean
/// integration stands with its artifacts; where nothing was integrated the tasks'
/// own stand.
pub proof fn law_conflicts_are_reported(
    reply: Option<Result<IntegrationOutcome, PortError>>,
    own: Vec<ArtifactRef>,
    r: Result<Vec<ArtifactRef>, PhaseOutcome>,
)
    requires
        integration_taken(reply, own, r),
    ensures
        reply is None ==> r == Ok::<Vec<ArtifactRef>, PhaseOutcome>(own),
        reply matches Some(Ok(o)) ==> (o.conflicts@.len() == 0 ==> r == Ok::<
            Vec<ArtifactRef>,
            PhaseOutcome,
        >(o.artifacts)) && (o.conflicts@.len() > 0 ==> (r matches Err(
            PhaseOutcome::IntegrationConflicts { conflicts },
        ) && conflicts == o.conflicts)),
        reply matches Some(Err(error)) ==> (r matches Err(PhaseOutcome::Failed(f))
            && f.reason is IntegrationFailed && f.class == error.class),
{
    if let Err(PhaseOutcome::Failed(f)) = r {
        assert(f@.reason == f.reason@);
    }
}

/// The integrator's summary stands where it gave one, and otherwise the fallback:
/// the tasks' summaries, or the goal where there are none.
pub proof fn law_an_integration_has_a_summary(
    artifacts: Vec<ArtifactRef>,
    summary: Option<String>,
    fallback: String,
    goal: Seq<char>,
    summaries: Seq<String>,
)
    ensures
        integration_end(artifacts, summary, fallback) matches PhaseOutcome::IntegrationDone {
            artifacts: a,
            summary: s,
        } && a == artifacts && (summary is Some ==> s == summary->0) && (summary is None ==> s
            == fallback),
        summaries.len() == 0 ==> fallback_of(goal, summaries) == "Completed: "@ + goal,
        summaries.len() > 0 ==> fallback_of(goal, summaries) == join_of(views(summaries), "; "@),
{
}

/// A judge never fails a run: its verdict stands where it gave one, and otherwise
/// the run is evaluated without.
pub proof fn law_a_judge_never_fails_a_run(reply: JudgeReply)
    ensures
        judgement_of(reply) is Evaluated,
        reply matches JudgeReply::Verdict(e) ==> judgement_of(reply) == PhaseOutcome::Evaluated(e),
        reply is Absent || reply is Failed || reply is TimedOut ==> judgement_of(reply)
            == PhaseOutcome::Evaluated(None),
{
}

/// What is asked of the planner's proposals are the candidates, as far as the mode
/// allows, and only proposals are asked.
pub proof fn law_candidates_are_asked(
    given: Understanding,
    usage: Usage,
    mode: RunMode,
    threshold: u32,
    max: usize,
    c: Clarified,
)
    requires
        clarified(
            Ok::<(Understanding, Usage), PortError>((given, usage)),
            mode,
            threshold,
            max,
            Ok::<Clarified, PhaseOutcome>(c),
        ),
    ensures
        !(mode is Kohral) ==> c.to_ask@ == candidates_of(
            given.proposed_questions@,
            threshold,
            max,
        ),
        mode is Kohral ==> forall|k: int|
            0 <= k < c.to_ask@.len() ==> given.proposed_questions@[(
            #[trigger] c.to_ask@[k]) as int].recommended() is Some,
        forall|k: int|
            0 <= k < c.to_ask@.len() ==> (#[trigger] c.to_ask@[k])
                < given.proposed_questions@.len(),
{
    let qs = given.proposed_questions@;
    let places = candidates_of(qs, threshold, max);
    if mode is Kohral {
        lemma_recommended_only(qs, places);
    } else {
        law_other_runs_ask_every_candidate(qs, places);
    }
}

proof fn lemma_recommended_only(qs: Seq<ProposedQuestion>, candidates: Seq<usize>)
    ensures
        forall|k: int|
            0 <= k < asked_places(qs, candidates, true).len() ==> qs[(
            #[trigger] asked_places(qs, candidates, true)[k]) as int].recommended() is Some,
    decreases candidates.len(),
{
    if candidates.len() > 0 {
        lemma_recommended_only(qs, candidates.drop_last());
    }
}

} // verus!
