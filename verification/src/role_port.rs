//! From what the saga knows of a run to what a role's prompt is made of, and from
//! a role's answer back.
use vstd::prelude::*;

use crate::domain::{FailureClass, Usage};
use crate::ports::{
    AnsweredQuestion, IntegrateContext, IntegrationSummary, PortError,
    RoleContext as SagaContext,
};
use crate::roles::context::{
    BudgetHints, PlanFeedback, PriorAnswer, RepoFacts, RoleContext, RoleLimits,
};
use crate::roles::integrator::{IntegrationReport, IntegrationStatus};
use crate::roles::memory_block::MemoryBlock;
use crate::roles::RoleError;
use crate::run_actor::jobs::Integration;
use crate::text::copy_strings;

verus! {

/// The name of a repository whose directory has none.
pub const DEFAULT_REPO_NAME: &'static str = "workspace";

/// The same answer, for a prompt.
pub open spec fn prior_of(a: AnsweredQuestion) -> PriorAnswer {
    PriorAnswer { question: a.question, answer: a.answer, answered_by: a.answered_by }
}

fn prior_answers(answers: Vec<AnsweredQuestion>) -> (r: Vec<PriorAnswer>)
    ensures
        r@ == answers@.map_values(|a: AnsweredQuestion| prior_of(a)),
{
    let ghost all = answers@.map_values(|a: AnsweredQuestion| prior_of(a));
    let mut out: Vec<PriorAnswer> = Vec::new();
    let mut i: usize = 0;
    while i < answers.len()
        invariant
            i <= answers@.len(),
            all == answers@.map_values(|a: AnsweredQuestion| prior_of(a)),
            out@ == all.subrange(0, i as int),
        decreases answers@.len() - i,
    {
        let a = answers[i].clone();
        out.push(
            PriorAnswer { question: a.question, answer: a.answer, answered_by: a.answered_by },
        );
        i = i + 1;
        assert(out@ =~= all.subrange(0, i as int));
    }
    assert(all.subrange(0, all.len() as int) =~= all);
    out
}

/// The feedback of a call: what the user said, and then what the validator
/// found.
pub open spec fn is_feedback(
    feedback: Option<String>,
    errors: Seq<String>,
    points: Seq<PlanFeedback>,
) -> bool {
    let human: int = if feedback is Some {
        1
    } else {
        0
    };
    let validator: int = if errors.len() > 0 {
        1
    } else {
        0
    };
    &&& points.len() == human + validator
    &&& feedback matches Some(text) ==> points[0].revision == 1 && points[0].source
        == crate::roles::context::FeedbackSource::Human && points[0].points@ == seq![text]
    &&& errors.len() > 0 ==> points[human].revision == human + 1 && points[human].source
        == crate::roles::context::FeedbackSource::Validator && points[human].points@ == errors
}

fn feedback_points(feedback: Option<String>, errors: Vec<String>) -> (r: Vec<PlanFeedback>)
    ensures
        is_feedback(feedback, errors@, r@),
{
    let mut out: Vec<PlanFeedback> = Vec::new();
    let mut revision: u32 = 1;
    if let Some(text) = feedback {
        out.push(PlanFeedback::rejected(1, text));
        revision = 2;
    }
    if errors.len() > 0 {
        out.push(PlanFeedback::validation(revision, errors));
    }
    out
}

/// What a prompt knows of the run.
pub open spec fn prompts(
    ctx: SagaContext,
    repo_name: Option<Seq<char>>,
    checks: Seq<String>,
    limits: RoleLimits,
    r: RoleContext,
) -> bool {
    &&& r.goal == ctx.goal.text
    &&& r.run_mode == Some(ctx.mode)
    &&& r.repo.name@ == (match repo_name {
        Some(name) => name,
        None => DEFAULT_REPO_NAME@,
    })
    &&& r.repo.root@ == ctx.goal.cwd@
    &&& r.repo.vcs == ctx.goal.repo_kind
    &&& r.repo.base_branch is None
    &&& r.repo.top_level@.len() == 0
    &&& r.repo.languages@.len() == 0
    &&& r.repo.checks@ == checks
    &&& r.repo.notes@.len() == 0
    &&& r.prior_answers@ == ctx.answers@.map_values(|a: AnsweredQuestion| prior_of(a))
    &&& match ctx.memory {
        Some(memory) => r.memory matches Some(block) && block@ == MemoryBlock::of(
            memory@,
            limits.memory_context_max_tokens,
        ),
        None => r.memory is None,
    }
    &&& r.acceptance_criteria@ == (match ctx.understanding {
        Some(u) => u.success_criteria@,
        None => Seq::empty(),
    })
    &&& r.budget == (BudgetHints {
        max_usd: None,
        max_tokens: None,
        max_wall: None,
        max_parallel: None,
        spent_usd: None,
    })
    &&& is_feedback(ctx.feedback, ctx.repair_errors@, r.plan_feedback@)
    &&& r.understanding == ctx.understanding
    &&& r.plan == ctx.previous_plan
    &&& r.tasks@.len() == 0
    &&& r.artifacts@.len() == 0
    &&& r.integration.mode@.len() == 0
    &&& r.integration.base_branch@.len() == 0
    &&& !r.integration.pr_per_task
    &&& r.integration.checks@.len() == 0
    &&& r.integration.conflicts@.len() == 0
    &&& r.run_outcome is None
    &&& r.limits == limits
    &&& r.system_context == ctx.system_context
}

/// The context of a role's prompt. `repo_name` is the last part of the run's
/// directory, where it has one.
pub fn prompt_context(
    ctx: SagaContext,
    repo_name: Option<&str>,
    checks: &Vec<String>,
    limits: RoleLimits,
) -> (r: RoleContext)
    ensures
        prompts(
            ctx,
            (match repo_name {
                Some(name) => Some(name@),
                None => None,
            }),
            checks@,
            limits,
            r,
        ),
        r.wf(),
{
    let name = match repo_name {
        Some(name) => name,
        None => DEFAULT_REPO_NAME,
    };
    let mut repo = RepoFacts::new(name, ctx.goal.cwd.as_str());
    repo.vcs = ctx.goal.repo_kind;
    repo.checks = copy_strings(checks);
    let criteria = match &ctx.understanding {
        Some(u) => copy_strings(&u.success_criteria),
        None => Vec::new(),
    };
    let mut r = RoleContext::new(ctx.goal.text).with_run_mode(ctx.mode).with_repo(
        repo,
    ).with_limits(limits).with_budget(BudgetHints::default()).with_prior_answers(
        prior_answers(ctx.answers),
    ).with_acceptance_criteria(criteria).with_plan_feedback(
        feedback_points(ctx.feedback, ctx.repair_errors),
    );
    r.system_context = ctx.system_context;
    if let Some(memory) = &ctx.memory {
        r.memory = Some(MemoryBlock::new(memory.as_str(), limits.memory_context_max_tokens));
    }
    r.understanding = ctx.understanding;
    r.plan = ctx.previous_plan;
    r
}

/// The name of a way to integrate.
pub open spec fn integration_name(mode: Integration) -> Seq<char> {
    match mode {
        Integration::Pr => "pr"@,
        Integration::Merge => "merge"@,
        Integration::Off => "none"@,
    }
}

/// The name of a way to integrate.
pub fn integration_mode(mode: Integration) -> (r: String)
    ensures
        r@ == integration_name(mode),
{
    match mode {
        Integration::Pr => "pr".to_owned(),
        Integration::Merge => "merge".to_owned(),
        Integration::Off => "none".to_owned(),
    }
}

/// What the integrator's prompt knows of the run.
pub open spec fn prompts_integrator(
    ctx: IntegrateContext,
    repo_name: Option<Seq<char>>,
    checks: Seq<String>,
    limits: RoleLimits,
    mode: Integration,
    pr_per_task: bool,
    r: RoleContext,
) -> bool {
    &&& r.goal == ctx.goal.text
    &&& r.run_mode == Some(crate::domain::RunMode::Headless)
    &&& r.repo.root@ == ctx.goal.cwd@
    &&& r.repo.vcs == ctx.goal.repo_kind
    &&& r.repo.name@ == (match repo_name {
        Some(name) => name,
        None => DEFAULT_REPO_NAME@,
    })
    &&& r.repo.base_branch is None
    &&& r.repo.top_level@.len() == 0
    &&& r.repo.languages@.len() == 0
    &&& r.repo.checks@ == checks
    &&& r.repo.notes@.len() == 0
    &&& r.prior_answers@.len() == 0
    &&& r.memory is None
    &&& r.acceptance_criteria == ctx.acceptance_criteria
    &&& r.budget == (BudgetHints {
        max_usd: None,
        max_tokens: None,
        max_wall: None,
        max_parallel: None,
        spent_usd: None,
    })
    &&& r.plan_feedback@.len() == 0
    &&& r.understanding is None
    &&& r.plan is None
    &&& r.tasks@.len() == 0
    &&& r.artifacts@.len() == 0
    &&& r.integration.mode@ == integration_name(mode)
    &&& r.integration.base_branch@.len() == 0
    &&& r.integration.pr_per_task == pr_per_task
    &&& r.integration.checks@ == checks
    &&& r.integration.conflicts == ctx.conflicts
    &&& r.run_outcome is None
    &&& r.limits == limits
    &&& r.system_context@.len() == 0
}

/// The context of the integrator's prompt: that of a headless run, with the
/// criteria of the plan and the settings of the integration.
pub fn integrator_prompt(
    ctx: IntegrateContext,
    repo_name: Option<&str>,
    checks: &Vec<String>,
    limits: RoleLimits,
    mode: Integration,
    pr_per_task: bool,
) -> (r: RoleContext)
    ensures
        prompts_integrator(
            ctx,
            (match repo_name {
                Some(name) => Some(name@),
                None => None,
            }),
            checks@,
            limits,
            mode,
            pr_per_task,
            r,
        ),
        r.wf(),
{
    let saga = SagaContext::new(
        ctx.run_id,
        ctx.goal,
        crate::domain::RunMode::Headless,
        ctx.route,
    );
    let mut r = prompt_context(saga, repo_name, checks, limits).with_acceptance_criteria(
        ctx.acceptance_criteria,
    );
    r.integration.mode = integration_mode(mode);
    r.integration.pr_per_task = pr_per_task;
    r.integration.checks = copy_strings(checks);
    r.integration.conflicts = ctx.conflicts;
    r
}

/// What the integrator's report is answered with.
pub open spec fn integration_replied(
    report: IntegrationReport,
    usage: Usage,
    r: Result<(IntegrationSummary, Usage), PortError>,
) -> bool {
    match r {
        Ok((summary, u)) => report.status != IntegrationStatus::Failed && summary.summary
            == report.summary && u == usage,
        Err(error) => report.status == IntegrationStatus::Failed && error.port@ == "roles"@
            && error.message == report.summary && error.class == FailureClass::Permanent,
    }
}

/// The integrator's summary; a failed integration is a failure of the port.
pub fn integration_reply(report: IntegrationReport, usage: Usage) -> (r: Result<
    (IntegrationSummary, Usage),
    PortError,
>)
    ensures
        integration_replied(report, usage, r),
{
    if report.status == IntegrationStatus::Failed {
        return Err(PortError::permanent("roles", report.summary));
    }
    Ok((IntegrationSummary { summary: report.summary }, usage))
}

/// The class of a role's failure: a timeout or a worker that would not start is
/// worth another try, a worker's own failure keeps its class, and anything else
/// is permanent.
pub open spec fn class_of(error: RoleError) -> FailureClass {
    match error {
        RoleError::Timeout { .. } => FailureClass::Transient,
        RoleError::Spawn { .. } => FailureClass::Transient,
        RoleError::WorkerFailed { class, .. } => class,
        _ => FailureClass::Permanent,
    }
}

/// The port's failure for a role's failure.
pub fn port_error(error: &RoleError) -> (r: PortError)
    ensures
        r.port@ == "roles"@,
        r.message@ == error.shown(),
        r.class == class_of(*error),
{
    let class = match error {
        RoleError::Timeout { .. } => FailureClass::Transient,
        RoleError::Spawn { .. } => FailureClass::Transient,
        RoleError::WorkerFailed { class, .. } => *class,
        _ => FailureClass::Permanent,
    };
    PortError { port: "roles", message: error.text(), class }
}

// ---------------------------------------------------------------------------
// Laws
// ---------------------------------------------------------------------------
/// A role that took too long or whose worker would not start is worth another try,
/// a worker's own failure keeps its class, and every other failure is final.
pub proof fn law_role_failures_are_classed(error: RoleError)
    ensures
        error is Timeout || error is Spawn ==> class_of(error) == FailureClass::Transient,
        error matches RoleError::WorkerFailed { class, .. } ==> class_of(error) == class,
        error is Output || error is Parse || error is Invalid || error is InvalidPlan
            || error is WorkerUnavailable || error is UnknownModel ==> class_of(error)
            == FailureClass::Permanent,
{
}

/// The planner hears what the user said of its plan first, and then what the
/// validator found, each under its revision; without either it hears nothing.
pub proof fn law_feedback_is_passed_on(
    feedback: Option<String>,
    errors: Seq<String>,
    points: Seq<PlanFeedback>,
)
    requires
        is_feedback(feedback, errors, points),
    ensures
        feedback is None && errors.len() == 0 ==> points.len() == 0,
        feedback is Some && errors.len() == 0 ==> points.len() == 1,
        feedback is None && errors.len() > 0 ==> points.len() == 1 && points[0].points@ == errors
            && points[0].revision == 1 && points[0].source
            == crate::roles::context::FeedbackSource::Validator,
        feedback is Some && errors.len() > 0 ==> points.len() == 2 && points[1].points@ == errors
            && points[1].revision == 2 && points[1].source
            == crate::roles::context::FeedbackSource::Validator,
        feedback matches Some(text) ==> points[0].points@ == seq![text] && points[0].revision == 1
            && points[0].source == crate::roles::context::FeedbackSource::Human,
{
}

/// A prompt knows the run as it stands: its goal, mode and checkout, every answer
/// with who gave it, the understanding and its criteria, the plan before, the
/// system's context and the configured limits.
pub proof fn law_prompts_know_the_run(
    ctx: SagaContext,
    repo_name: Option<Seq<char>>,
    checks: Seq<String>,
    limits: RoleLimits,
    r: RoleContext,
    i: int,
)
    requires
        prompts(ctx, repo_name, checks, limits, r),
    ensures
        r.goal == ctx.goal.text && r.run_mode == Some(ctx.mode),
        r.repo.root@ == ctx.goal.cwd@ && r.repo.vcs == ctx.goal.repo_kind && r.repo.checks@
            == checks,
        repo_name matches Some(name) ==> r.repo.name@ == name,
        repo_name is None ==> r.repo.name@ == "workspace"@,
        r.prior_answers@.len() == ctx.answers@.len(),
        0 <= i < ctx.answers@.len() ==> r.prior_answers@[i].question == ctx.answers@[i].question
            && r.prior_answers@[i].answer == ctx.answers@[i].answer
            && r.prior_answers@[i].answered_by == ctx.answers@[i].answered_by,
        r.understanding == ctx.understanding && r.plan == ctx.previous_plan,
        ctx.understanding matches Some(u) ==> r.acceptance_criteria@ == u.success_criteria@,
        ctx.memory is None <==> r.memory is None,
        r.system_context == ctx.system_context && r.limits == limits,
        is_feedback(ctx.feedback, ctx.repair_errors@, r.plan_feedback@),
        ctx.understanding is None ==> r.acceptance_criteria@.len() == 0,
        ctx.memory matches Some(memory) ==> (r.memory matches Some(block) && block@
            == MemoryBlock::of(memory@, limits.memory_context_max_tokens)),
        r.repo.base_branch is None && r.repo.top_level@.len() == 0 && r.repo.languages@.len() == 0
            && r.repo.notes@.len() == 0,
        r.tasks@.len() == 0 && r.artifacts@.len() == 0 && r.run_outcome is None,
{
}

/// The integrator's prompt knows the goal, the criteria, the checks and the
/// conflicts, and how results are integrated; nobody is there to answer it.
pub proof fn law_the_integrators_prompt_knows_the_results(
    ctx: IntegrateContext,
    repo_name: Option<Seq<char>>,
    checks: Seq<String>,
    limits: RoleLimits,
    mode: Integration,
    pr_per_task: bool,
    r: RoleContext,
)
    requires
        prompts_integrator(ctx, repo_name, checks, limits, mode, pr_per_task, r),
    ensures
        r.goal == ctx.goal.text && r.repo.root@ == ctx.goal.cwd@,
        r.run_mode matches Some(m) && m is Headless,
        r.acceptance_criteria == ctx.acceptance_criteria,
        r.integration.conflicts == ctx.conflicts && r.integration.checks@ == checks
            && r.integration.pr_per_task == pr_per_task,
        mode == Integration::Pr ==> r.integration.mode@ == "pr"@,
        mode == Integration::Merge ==> r.integration.mode@ == "merge"@,
        mode == Integration::Off ==> r.integration.mode@ == "none"@,
        repo_name matches Some(name) ==> r.repo.name@ == name,
        repo_name is None ==> r.repo.name@ == "workspace"@,
        r.repo.vcs == ctx.goal.repo_kind && r.repo.checks@ == checks && r.limits == limits,
        r.prior_answers@.len() == 0 && r.memory is None && r.plan_feedback@.len() == 0,
        r.understanding is None && r.plan is None && r.run_outcome is None,
        r.tasks@.len() == 0 && r.artifacts@.len() == 0 && r.system_context@.len() == 0,
        r.repo.base_branch is None && r.repo.top_level@.len() == 0 && r.repo.languages@.len() == 0
            && r.repo.notes@.len() == 0,
{
}

/// A failed integration is a final failure with its summary; every other report is
/// an answer with it.
pub proof fn law_a_failed_integration_is_a_failure(
    report: IntegrationReport,
    usage: Usage,
    r: Result<(IntegrationSummary, Usage), PortError>,
)
    requires
        integration_replied(report, usage, r),
    ensures
        r is Err <==> report.status == IntegrationStatus::Failed,
        r matches Ok((summary, u)) ==> summary.summary == report.summary && u == usage,
        r matches Err(error) ==> error.class == FailureClass::Permanent && error.message
            == report.summary,
{
}


} // verus!
