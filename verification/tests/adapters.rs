use kevin_orchestrator::convert::{ManagerArtifact, ManagerPolicy, WorkerUsage};
use kevin_orchestrator::domain::{
    ArtifactKind, FailureClass, Goal, QuestionPolicy, RepoKind, Role, Route, RunMode,
    Span, TaskKind, Usage, WorkerKind, Workspace, WorkspaceKind, WorkspacePolicy,
};
use kevin_orchestrator::evaluator_port::{keep_polling, plan_outline};
use kevin_orchestrator::json::strings;
use kevin_orchestrator::local_workspace::{
    conflict_text, integration_outcome, integration_run, prepare_request, MergeConflict,
};
use kevin_orchestrator::money::Amount;
use kevin_orchestrator::ports::{
    AnsweredQuestion, IntegrateContext, IntegrateRequest, PrepareWorkspace, RoleContext,
};
use kevin_orchestrator::role_port::{
    integration_mode, integration_reply, integrator_prompt, port_error, prompt_context,
};
use kevin_orchestrator::roles::context::{FeedbackSource, RoleLimits};
use kevin_orchestrator::roles::integrator::{IntegrationReport, IntegrationStatus};
use kevin_orchestrator::roles::runner::{
    after_first, after_second, call_route, finish_turn, repair_message, CallStep, Reading,
    TurnAnswer, TurnEnd,
};
use kevin_orchestrator::roles::{RoleError, StructuredError};
use kevin_orchestrator::run_actor::jobs::Integration;

fn amount(mantissa: i128, scale: u32) -> Amount {
    Amount { mantissa, scale }
}

#[test]
fn amounts_are_exact_decimals() {
    assert_eq!(amount(1, 1).plus(amount(2, 1)).unwrap().text(), "0.3");
    assert_eq!(amount(150, 2).plus(amount(5, 1)).unwrap().text(), "2.00");
    assert_eq!(amount(1, 0).minus(amount(25, 2)).unwrap().text(), "0.75");
    assert_eq!(amount(1, 0).minus(amount(3, 0)).unwrap().text(), "-2");
    assert!(amount(10, 1).less(amount(2, 0)));
    assert!(!amount(10, 1).less(amount(1, 0)));
    assert_eq!(amount(-5, 0).at_least_zero().text(), "0");
    assert_eq!(amount(5, 0).at_least_zero().text(), "5");
    let most = amount(79_228_162_514_264_337_593_543_950_335, 0);
    assert_eq!(most.plus(most), None);
    assert_eq!(Amount::zero().text(), "0");
}

#[test]
fn plans_are_outlined() {
    let plan = "{\"rationale\":\"why\",\"tasks\":[{\"kind\":\"implement\",\"title\":\"a\"},{}]}";
    assert_eq!(plan_outline(plan), "why\n- implement: a\n- task: (untitled)");
    assert_eq!(plan_outline("{\"tasks\":[{\"title\":\"b\"}]}"), "- task: b");
    assert_eq!(plan_outline("{\"rationale\":\"\"}"), "");
    assert_eq!(plan_outline("[]"), "");
}

#[test]
fn only_strings_are_picked() {
    assert_eq!(
        strings("[\"a\",1,\"b\\n\",null]"),
        vec!["a".to_owned(), "b\n".to_owned()]
    );
    assert!(strings("{}").is_empty());
    assert!(strings("not json").is_empty());
}

#[test]
fn evidence_is_polled_until_the_deadline() {
    assert!(keep_polling(false, 0, 5));
    assert!(!keep_polling(true, 0, 5));
    assert!(!keep_polling(false, 5, 5));
}

fn workspace() -> Workspace {
    Workspace { root: "/w".to_owned(), kind: WorkspaceKind::InPlace, base_rev: None }
}

#[test]
fn workspace_requests_reach_the_manager() {
    let request = prepare_request(PrepareWorkspace {
        run_id: 1,
        task_id: 5,
        attempt_id: 50,
        task_slug: "slug".to_owned(),
        policy: WorkspacePolicy::Isolated,
    });
    assert_eq!(request.slug, "slug");
    assert_eq!(request.policy, ManagerPolicy::Isolated);
    let (run, workspaces) = integration_run(IntegrateRequest {
        run_id: 1,
        title: "t".to_owned(),
        summary: "s".to_owned(),
        acceptance_criteria: vec!["c".to_owned()],
        workspaces: vec![workspace()],
    });
    assert_eq!((run.title.as_str(), run.base_branch), ("t", None));
    assert_eq!(workspaces.len(), 1);
}

#[test]
fn conflicts_name_their_files() {
    let conflict = MergeConflict {
        source: "branch".to_owned(),
        files: vec!["a.rs".to_owned(), "b.rs".to_owned()],
    };
    assert_eq!(conflict_text(&conflict), "branch (a.rs, b.rs)");
    let bare = MergeConflict { source: "branch".to_owned(), files: vec![] };
    assert_eq!(conflict_text(&bare), "branch");
    let artifact = ManagerArtifact {
        id: 3,
        kind: ArtifactKind::Diff,
        uri: "u".to_owned(),
        sha256: None,
        bytes: None,
    };
    let outcome = integration_outcome(&vec![artifact], &vec![conflict]);
    assert!(!outcome.is_clean());
    assert_eq!(outcome.conflicts, vec!["branch (a.rs, b.rs)".to_owned()]);
    assert_eq!(outcome.artifacts[0].id, 3);
}

fn route() -> Route {
    Route {
        worker: WorkerKind { name: "fake".to_owned() },
        model: "m".to_owned(),
        effort: Some("low".to_owned()),
    }
}

fn goal() -> Goal {
    Goal { text: "g".to_owned(), cwd: "/r".to_owned(), repo_kind: RepoKind::Git }
}

#[test]
fn prompts_know_the_run() {
    let mut ctx = RoleContext::new(1, goal(), RunMode::Headless, route());
    ctx.memory = Some("remember".to_owned());
    ctx.feedback = Some("smaller".to_owned());
    ctx.repair_errors = vec!["cycle".to_owned()];
    ctx.answers = vec![AnsweredQuestion {
        question: "q".to_owned(),
        answer: "a".to_owned(),
        answered_by: "me".to_owned(),
    }];
    let checks = vec!["make test".to_owned()];
    let prompt = prompt_context(ctx, None, &checks, RoleLimits::default());
    assert_eq!(prompt.repo.name, "workspace");
    assert_eq!(prompt.repo.root, "/r");
    assert_eq!(prompt.repo.checks, checks);
    assert_eq!(prompt.prior_answers[0].answer, "a");
    assert!(prompt.memory.is_some());
    assert_eq!(prompt.plan_feedback.len(), 2);
    assert_eq!(prompt.plan_feedback[0].source, FeedbackSource::Human);
    assert_eq!(prompt.plan_feedback[1].source, FeedbackSource::Validator);
    assert_eq!(prompt.plan_feedback[1].revision, 2);
}

#[test]
fn the_integrator_knows_the_conflicts() {
    let ctx = IntegrateContext {
        run_id: 1,
        goal: goal(),
        acceptance_criteria: vec!["c".to_owned()],
        task_summaries: vec![],
        artifacts: vec![],
        conflicts: vec!["b".to_owned()],
        route: route(),
    };
    let prompt = integrator_prompt(
        ctx,
        Some("repo"),
        &vec![],
        RoleLimits::default(),
        Integration::Pr,
        true,
    );
    assert_eq!(prompt.repo.name, "repo");
    assert_eq!(prompt.integration.mode, "pr");
    assert_eq!(prompt.integration.conflicts, vec!["b".to_owned()]);
    assert_eq!(prompt.acceptance_criteria, vec!["c".to_owned()]);
    assert_eq!(integration_mode(Integration::Merge), "merge");
    assert_eq!(integration_mode(Integration::Off), "none");
}

#[test]
fn a_failed_integration_fails_the_port() {
    let report = |status: IntegrationStatus| IntegrationReport {
        status,
        summary: "s".to_owned(),
        merged: vec![],
        conflicts: vec![],
        checks: vec![],
        artifacts: vec![],
        follow_up: vec![],
    };
    let ok = integration_reply(report(IntegrationStatus::Integrated), Usage::zero()).unwrap();
    assert_eq!(ok.0.summary, "s");
    let error = integration_reply(report(IntegrationStatus::Failed), Usage::zero());
    assert_eq!(error.unwrap_err().class, FailureClass::Permanent);
}

#[test]
fn failures_of_roles_keep_their_class() {
    let timeout = RoleError::Timeout { role: "planner", timeout: Span::from_secs(2) };
    assert_eq!(port_error(&timeout).class, FailureClass::Transient);
    let spawn = RoleError::Spawn { role: "planner", source: "x".to_owned() };
    assert_eq!(port_error(&spawn).class, FailureClass::Transient);
    let worker = RoleError::WorkerFailed {
        role: "planner",
        class: FailureClass::Budget,
        message: "m".to_owned(),
        usage: Usage::zero(),
    };
    assert_eq!(port_error(&worker).class, FailureClass::Budget);
    let unknown = RoleError::UnknownModel { role: "planner", alias: "a".to_owned() };
    let error = port_error(&unknown);
    assert_eq!((error.port, error.class), ("roles", FailureClass::Permanent));
    assert_eq!(error.message, unknown.text());
}

#[test]
fn a_call_may_change_the_effort() {
    assert_eq!(call_route(&route(), None).effort, Some("low".to_owned()));
    assert_eq!(
        call_route(&route(), Some("high".to_owned())).effort,
        Some("high".to_owned())
    );
}

fn worker_usage(tokens: u64) -> WorkerUsage {
    WorkerUsage {
        input_tokens: tokens,
        output_tokens: 0,
        cache_read_tokens: 0,
        cache_write_tokens: 0,
        cost_usd: None,
        wall_ms: 0,
    }
}

#[test]
fn turns_end_in_an_answer_or_an_error() {
    let succeeded = |structured: Option<String>| TurnEnd::Succeeded {
        text: "text".to_owned(),
        structured,
        usage: worker_usage(4),
        session_id: Some("s2".to_owned()),
    };
    let turn =
        finish_turn("planner", Span::from_secs(1), succeeded(Some("{}".to_owned())), None);
    let turn = turn.unwrap();
    assert_eq!(turn.answer, TurnAnswer::Text("{}".to_owned()));
    assert_eq!(turn.usage.input_tokens, 4);
    assert_eq!(turn.session_id, Some("s2".to_owned()));
    let turn = finish_turn("planner", Span::from_secs(1), succeeded(None), None).unwrap();
    assert_eq!(turn.answer, TurnAnswer::Text("text".to_owned()));
    assert_eq!(
        finish_turn("planner", Span::from_secs(1), TurnEnd::TimedOut, None),
        Err(RoleError::Timeout { role: "planner", timeout: Span::from_secs(1) })
    );
    let spawn = TurnEnd::SpawnFailed { message: "x".to_owned() };
    assert_eq!(
        finish_turn("planner", Span::from_secs(1), spawn, None),
        Err(RoleError::Spawn { role: "planner", source: "x".to_owned() })
    );
    let failed = |message: &str| TurnEnd::Failed {
        class: FailureClass::Transient,
        message: message.to_owned(),
        usage: worker_usage(7),
    };
    let error = finish_turn("planner", Span::from_secs(1), failed("m"), None);
    assert_eq!(error.unwrap_err().usage().input_tokens, 7);
    let turn = finish_turn(
        "planner",
        Span::from_secs(1),
        failed("schema_violation: e"),
        Some("s1".to_owned()),
    );
    let turn = turn.unwrap();
    assert!(matches!(turn.answer, TurnAnswer::SchemaViolation(_)));
    assert_eq!(turn.session_id, Some("s1".to_owned()));
}

fn violation() -> StructuredError {
    StructuredError::SchemaViolation { errors: vec!["e".to_owned()] }
}

fn tokens(n: u64) -> Usage {
    Usage { input_tokens: n, ..Usage::zero() }
}

#[test]
fn a_schema_violation_is_repaired_once() {
    let first: CallStep<u8> = after_first(
        "planner",
        true,
        Reading::SchemaViolation(violation()),
        tokens(3),
        Some("s".to_owned()),
    );
    match first {
        CallStep::Repair { error, session_id, usage } => {
            assert_eq!(error, violation());
            assert_eq!(session_id, Some("s".to_owned()));
            assert_eq!(usage, tokens(3));
        }
        other => panic!("{other:?}"),
    }
    assert_eq!(
        after_second("planner", tokens(3), Reading::Parsed(Ok(9_u8)), tokens(4)),
        Some(Ok((9, tokens(7))))
    );
    let again = after_second::<u8>(
        "planner",
        tokens(3),
        Reading::SchemaViolation(violation()),
        tokens(4),
    );
    assert!(again.unwrap().unwrap_err().is_schema_violation());
    let without: CallStep<u8> = after_first(
        "planner",
        false,
        Reading::SchemaViolation(violation()),
        tokens(3),
        None,
    );
    assert!(matches!(without, CallStep::Failed { .. }));
    let done = after_first("planner", true, Reading::Parsed(Ok(1_u8)), tokens(3), None);
    assert_eq!(done, CallStep::Done { output: 1, usage: tokens(3) });
}

#[test]
fn a_repair_without_a_session_repeats_the_prompt() {
    assert_eq!(repair_message("user", "fix", true), "fix");
    assert_eq!(repair_message("user", "fix", false), "user\n\n---\n\nfix");
}

#[test]
fn kinds_and_roles_have_names() {
    assert_eq!(Role::Judge.as_str(), "judge");
    assert_eq!(TaskKind::Implement.name(), "implement");
    assert_eq!(
        QuestionPolicy::immediate_default(),
        QuestionPolicy::DefaultAfter { timeout: Span::from_secs(0) }
    );
}
