use kevin_orchestrator::domain::{
    ArtifactKind, ArtifactRef, Complexity, FailureClass, Goal, QuestionOption, QuestionPolicy,
    RepoKind, Role, Route, RunMode, Span, Usage, WorkerKind, Workspace, WorkspaceKind,
};
use kevin_orchestrator::events::RunFailureReason;
use kevin_orchestrator::money::Amount;
use kevin_orchestrator::ports::{IntegrationOutcome, PortError};
use kevin_orchestrator::roles::context::{Plan, ProposedQuestion, Understanding};
use kevin_orchestrator::run_actor::actor::Failure;
use kevin_orchestrator::run_actor::integration::{PhaseOutcome, RunEvaluation};
use kevin_orchestrator::run_actor::jobs::{
    after_integration, after_plan, after_proposal, after_repair, after_understanding,
    clarifications, clarify, fallback_summary, integrated, integration_request,
    integrator_context, judged, planner_route, planning_context, repair_context,
    understanding_context, Integration, JudgeReply, PlanStep, Proposal,
};
use kevin_orchestrator::run_actor::schedule::{ModelAlias, RoleRoutes};

fn question(text: &str, confidence: f32, recommended: bool) -> ProposedQuestion {
    ProposedQuestion {
        text: text.to_owned(),
        options: vec![QuestionOption {
            label: format!("{text}!"),
            description: None,
            recommended,
        }],
        multi_select: true,
        why_it_matters: "w".to_owned(),
        confidence_if_unasked: confidence.to_bits(),
    }
}

fn understanding(questions: Vec<ProposedQuestion>) -> Understanding {
    Understanding {
        objective: "o".to_owned(),
        complexity: Complexity::High,
        success_criteria: vec![],
        assumptions: vec!["given".to_owned()],
        risks: vec![],
        suggested_task_kinds: vec![],
        context_refs: vec![],
        proposed_questions: questions,
    }
}

fn kohral() -> RunMode {
    RunMode::Kohral {
        turn_id: "t".to_owned(),
        session_key: "s".to_owned(),
        session_id: "i".to_owned(),
    }
}

fn routes(planner: &str) -> RoleRoutes {
    RoleRoutes {
        planner: planner.to_owned(),
        clarifier: "m".to_owned(),
        integrator: planner.to_owned(),
        judge: "m".to_owned(),
        summarizer: "m".to_owned(),
        effort: vec![(Role::Planner, "low".to_owned())],
        models: vec![ModelAlias {
            alias: "m".to_owned(),
            worker: WorkerKind { name: "fake".to_owned() },
        }],
    }
}

fn goal() -> Goal {
    Goal { text: "g".to_owned(), cwd: "/r".to_owned(), repo_kind: RepoKind::Git }
}

fn route() -> Route {
    Route {
        worker: WorkerKind { name: "fake".to_owned() },
        model: "m".to_owned(),
        effort: None,
    }
}

fn other(reason: &str, class: FailureClass, message: &str) -> PhaseOutcome {
    PhaseOutcome::Failed(Failure {
        reason: RunFailureReason::Other(reason.to_owned()),
        class,
        message: Some(message.to_owned()),
    })
}

fn invalid_plan(class: FailureClass, message: &str) -> PhaseOutcome {
    PhaseOutcome::Failed(Failure {
        reason: RunFailureReason::InvalidPlan,
        class,
        message: Some(message.to_owned()),
    })
}

#[test]
fn a_planner_without_a_route_fails_the_run() {
    assert_eq!(planner_route(&routes("m")).unwrap().effort, Some("low".to_owned()));
    assert_eq!(
        planner_route(&routes("gone")),
        Err(other(
            "no_planner_route",
            FailureClass::Permanent,
            "roles.planner = `gone` is not in [models]"
        ))
    );
}

#[test]
fn confident_proposals_are_assumed() {
    let u = understanding(vec![
        question("b", 0.3, true),
        question("sure", 0.9, true),
        question("a", 0.1, false),
        question("vague", 0.9, false),
    ]);
    let threshold = 0.7_f32.to_bits();
    let c = clarify(Ok((u, Usage::zero())), &RunMode::Headless, threshold, 4).unwrap();
    assert_eq!(c.to_ask, vec![2, 0]);
    assert_eq!(
        c.understanding.assumptions,
        vec![
            "given".to_owned(),
            "Assumed: sure → sure!".to_owned(),
            "Assumed: vague → planner's best guess (nobody could be asked)".to_owned(),
        ]
    );
    assert_eq!(c.understanding.complexity, Complexity::High);
    let asks = clarifications(
        &c.understanding.proposed_questions,
        &c.to_ask,
        &vec![80, 81],
        1,
        &RunMode::Headless,
        Span::from_secs(9),
    );
    assert_eq!(asks[0].question_id, 80);
    assert_eq!(asks[0].text, "a");
    assert_eq!(asks[0].policy, QuestionPolicy::DefaultAfter { timeout: Span::from_secs(9) });
    assert!(asks[0].default.is_none());
    assert_eq!(asks[1].policy, QuestionPolicy::immediate_default());
    let default = asks[1].default.as_ref().unwrap();
    assert_eq!(default.selected, vec!["b!".to_owned()]);
    assert_eq!(default.answered_by, "default");
    assert!(asks[1].multi_select);
    let asks = clarifications(
        &c.understanding.proposed_questions,
        &c.to_ask,
        &vec![80, 81],
        1,
        &RunMode::Interactive,
        Span::from_secs(9),
    );
    assert!(asks.iter().all(|a| a.policy == QuestionPolicy::Block && a.default.is_none()));
}

#[test]
fn kohral_asks_only_with_a_recommendation() {
    let u = understanding(vec![question("a", 0.1, false), question("b", 0.2, true)]);
    let c = clarify(Ok((u, Usage::zero())), &kohral(), 0.7_f32.to_bits(), 4).unwrap();
    assert_eq!(c.to_ask, vec![1]);
    let error = PortError::transient("roles", "late".to_owned());
    assert_eq!(
        clarify(Err(error), &kohral(), 0, 4),
        Err(other("understanding_failed", FailureClass::Transient, "late"))
    );
}

#[test]
fn an_understanding_must_be_recorded() {
    assert_eq!(after_understanding(None, false), None);
    assert_eq!(after_understanding(Some("no".to_owned()), true), None);
    assert_eq!(
        after_understanding(Some("no".to_owned()), false),
        Some(other("understanding_failed", FailureClass::Permanent, "no"))
    );
}

fn plan(rationale: &str) -> Plan {
    Plan { rationale: rationale.to_owned(), tasks: vec![] }
}

fn spent(cents: i128) -> Usage {
    Usage { cost_usd: Some(Amount { mantissa: cents, scale: 2 }), ..Usage::zero() }
}

#[test]
fn an_invalid_plan_is_repaired_once() {
    let step = after_plan(Ok((plan("p"), spent(5))), vec!["cycle".to_owned()]);
    let (first, errors, usage) = match step {
        PlanStep::Repair { plan, errors, usage } => (plan, errors, usage),
        other => panic!("{other:?}"),
    };
    let ctx = planning_context(
        1,
        goal(),
        RunMode::Headless,
        route(),
        None,
        None,
        vec![],
        None,
        None,
        None,
        vec![],
    );
    assert!(!ctx.is_repair());
    let ctx = repair_context(ctx, errors, first);
    assert!(ctx.is_repair());
    assert_eq!(ctx.previous_plan, Some(plan("p")));
    assert_eq!(
        after_repair(usage, Ok((plan("q"), spent(7))), vec![]),
        PlanStep::Propose { plan: plan("q"), usage: spent(12) }
    );
    assert_eq!(
        after_repair(usage, Ok((plan("q"), spent(7))), vec!["a".to_owned(), "b".to_owned()]),
        PlanStep::End(invalid_plan(FailureClass::Permanent, "a; b"))
    );
    assert_eq!(
        after_repair(usage, Err(PortError::transient("roles", "late".to_owned())), vec![]),
        PlanStep::End(invalid_plan(FailureClass::Transient, "late"))
    );
    let huge = Usage {
        cost_usd: Some(Amount {
            mantissa: 79_228_162_514_264_337_593_543_950_335,
            scale: 0,
        }),
        ..Usage::zero()
    };
    assert_eq!(after_repair(huge, Ok((plan("q"), huge)), vec![]), PlanStep::OutOfRange);
}

#[test]
fn planning_ends_with_the_proposal() {
    assert_eq!(
        after_plan(Ok((plan("p"), spent(5))), vec![]),
        PlanStep::Propose { plan: plan("p"), usage: spent(5) }
    );
    assert_eq!(
        after_plan(Err(PortError::permanent("roles", "no".to_owned())), vec![]),
        PlanStep::End(other("planning_failed", FailureClass::Permanent, "no"))
    );
    assert_eq!(after_proposal(Proposal::Recorded), PhaseOutcome::Noop);
    assert_eq!(after_proposal(Proposal::InvalidTransition), PhaseOutcome::Noop);
    assert_eq!(
        after_proposal(Proposal::InvalidPlan(vec!["x".to_owned()])),
        invalid_plan(FailureClass::Permanent, "x")
    );
    assert_eq!(
        after_proposal(Proposal::Failed("db".to_owned())),
        other("planning_failed", FailureClass::Permanent, "db")
    );
}

#[test]
fn integration_is_skipped_where_there_is_nothing_to_merge() {
    let workspace = || Workspace {
        root: "/w".to_owned(),
        kind: WorkspaceKind::InPlace,
        base_rev: None,
    };
    let summaries = vec!["s1".to_owned(), "s2".to_owned()];
    let criteria = vec!["c".to_owned()];
    let ask = |mode: Integration, workspaces: Vec<Workspace>| {
        integration_request(mode, 1, &goal(), &criteria, &summaries, workspaces)
    };
    assert_eq!(ask(Integration::Off, vec![workspace()]), None);
    assert_eq!(ask(Integration::Pr, vec![]), None);
    let request = ask(Integration::Merge, vec![workspace()]).unwrap();
    assert_eq!(request.title, "g");
    assert_eq!(request.summary, "s1\ns2");
    assert_eq!(request.acceptance_criteria, criteria);
}

#[test]
fn integrations_end_with_a_summary() {
    let artifact = || ArtifactRef {
        id: 3,
        kind: ArtifactKind::PrUrl,
        uri: "u".to_owned(),
        sha256: None,
        bytes: None,
    };
    assert_eq!(after_integration(None, vec![artifact()]), Ok(vec![artifact()]));
    let clean = IntegrationOutcome { artifacts: vec![artifact()], conflicts: vec![] };
    assert_eq!(after_integration(Some(Ok(clean)), vec![]), Ok(vec![artifact()]));
    let dirty = IntegrationOutcome { artifacts: vec![], conflicts: vec!["b".to_owned()] };
    assert_eq!(
        after_integration(Some(Ok(dirty)), vec![]),
        Err(PhaseOutcome::IntegrationConflicts { conflicts: vec!["b".to_owned()] })
    );
    let error = PortError::transient("workspace", "git".to_owned());
    assert_eq!(
        after_integration(Some(Err(error)), vec![]),
        Err(PhaseOutcome::Failed(Failure {
            reason: RunFailureReason::IntegrationFailed,
            class: FailureClass::Transient,
            message: Some("git".to_owned()),
        }))
    );
    assert_eq!(fallback_summary(&goal(), &vec![]), "Completed: g");
    let summaries = vec!["s1".to_owned(), "s2".to_owned()];
    assert_eq!(fallback_summary(&goal(), &summaries), "s1; s2");
    let none = integrator_context(&routes("gone"), 1, goal(), vec![], vec![], vec![]);
    assert!(none.is_none());
    let some = integrator_context(&routes("m"), 1, goal(), vec![], summaries, vec![]).unwrap();
    assert_eq!(some.task_summaries.len(), 2);
    assert_eq!(
        integrated(vec![], None, "f".to_owned()),
        PhaseOutcome::IntegrationDone { artifacts: vec![], summary: "f".to_owned() }
    );
    assert_eq!(
        integrated(vec![], Some("s".to_owned()), "f".to_owned()),
        PhaseOutcome::IntegrationDone { artifacts: vec![], summary: "s".to_owned() }
    );
}

#[test]
fn a_missing_judge_never_fails_the_run() {
    let verdict = || {
        Some(RunEvaluation {
            evaluation_id: 1,
            overall: 0.5_f32.to_bits(),
            verdict: "pass".to_owned(),
        })
    };
    assert_eq!(judged(JudgeReply::Verdict(verdict())), PhaseOutcome::Evaluated(verdict()));
    assert_eq!(judged(JudgeReply::Absent), PhaseOutcome::Evaluated(None));
    assert_eq!(judged(JudgeReply::Failed), PhaseOutcome::Evaluated(None));
    assert_eq!(judged(JudgeReply::TimedOut), PhaseOutcome::Evaluated(None));
}

#[test]
fn the_first_call_knows_the_goal_and_the_memory() {
    let ctx = understanding_context(
        1,
        goal(),
        kohral(),
        route(),
        Some("low".to_owned()),
        Some("mem".to_owned()),
        vec![],
    );
    assert_eq!(ctx.goal, goal());
    assert_eq!(ctx.memory, Some("mem".to_owned()));
    assert_eq!(ctx.effort, Some("low".to_owned()));
    assert!(ctx.understanding.is_none());
}

#[test]
fn what_a_run_does_not_ask_it_assumes() {
    let u = understanding(vec![
        question("open", 0.1, false),
        question("closed", 0.2, true),
        question("over", 0.3, true),
    ]);
    let threshold = 0.7_f32.to_bits();
    let mode = RunMode::Kohral {
        turn_id: "t".to_owned(),
        session_key: "s".to_owned(),
        session_id: "i".to_owned(),
    };
    let c = clarify(Ok((u, Usage::zero())), &mode, threshold, 2).unwrap();
    assert_eq!(c.to_ask, vec![1]);
    assert_eq!(
        c.understanding.assumptions[1..],
        [
            "Assumed: open → planner's best guess (nobody could be asked)".to_owned(),
            "Assumed: over → over!".to_owned(),
        ]
    );
}
