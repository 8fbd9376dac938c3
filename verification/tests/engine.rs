use std::collections::BTreeMap;

use kevin_orchestrator::commands::default_answer;
use kevin_orchestrator::domain::{
    Attempt, Budget, Complexity, FailureClass, Goal, RepoKind, Route, RunMode, RunStatus, Span,
    Task, TaskKind, TaskSpec, TaskStatus, Usage, WorkerKind, Workspace, WorkspaceKind,
    WorkspacePolicy,
};
use kevin_orchestrator::error::{AppError, DomainError, StoreError};
use kevin_orchestrator::orchestrator::{BootStep, Orchestrator, ShutdownStep};
use kevin_orchestrator::ports::{
    IntegrationOutcome, Lesson, PortError, PrepareWorkspace, RecordRouteOutcome, RoleContext,
    RouteSelection, RoutingPolicy, SelectRouteQuery,
};
use kevin_orchestrator::roles::context::{Plan, Understanding};
use kevin_orchestrator::run_actor::integration::RunEvaluation;
use kevin_orchestrator::run_actor::supervisor::{
    dangling_attempts, needs_actor, next_page, restarted, views_of, Dangling, Delivery,
    LoggedEvent, RunSupervisor,
};
use kevin_orchestrator::run_actor::view::{
    Run, RunChange, SagaEnvelope, SagaEvent, SagaView, TaskChange,
};
use kevin_orchestrator::services::{
    after_append, applied, backoff, created_id, id_result, map_domain_error, new_event,
    replayed, Action, Actor, AppendStep, Appended, CommandContext, CommandOutcome, Execution,
    Reply, StoredEvent,
};
use kevin_orchestrator::testing::{
    fake_alt_route, fake_route, FixedRouter, FlakyWorker, InMemoryCommands,
    RecordingMemory, ScriptedEvaluator, ScriptedRoles, TempWorkspaces,
};

fn conflict() -> StoreError {
    StoreError::VersionConflict { message: "moved".to_owned() }
}

fn stored(event_type: &str) -> StoredEvent {
    StoredEvent { event_type: event_type.to_owned(), position: 1, payload: "{}".to_owned() }
}

#[test]
fn conflicts_are_replayed_with_growing_pauses() {
    assert_eq!(backoff(0), Span::from_millis(10));
    assert_eq!(backoff(1), Span::from_millis(50));
    assert_eq!(backoff(2), Span::from_millis(200));
    assert_eq!(backoff(9), Span::from_millis(200));
    let mut retries = 0;
    let mut tries = 0;
    loop {
        tries += 1;
        match after_append(Appended::Failed(conflict()), retries, "run-1") {
            AppendStep::Replay { pause, retries: next } => {
                assert_eq!(pause, backoff(retries));
                retries = next;
            }
            AppendStep::Fail(error) => {
                assert_eq!(
                    error.text(),
                    "optimistic concurrency conflict on run-1 after 4 attempts"
                );
                assert!(error.is_transient());
                break;
            }
            AppendStep::Finish { .. } => panic!("nothing was appended"),
        }
    }
    assert_eq!(tries, 4);
}

#[test]
fn appends_finish_or_fail() {
    assert_eq!(
        after_append(Appended::Done(vec![stored("run.started")]), 0, "s"),
        AppendStep::Finish { events: vec![stored("run.started")] }
    );
    let down = StoreError::Other { message: "down".to_owned() };
    match after_append(Appended::Failed(down), 0, "s") {
        AppendStep::Fail(error) => assert_eq!(error.text(), "down"),
        other => panic!("{other:?}"),
    }
    let outcome = applied("r".to_owned(), vec![stored("a"), stored("b")]);
    assert_eq!(outcome.event_types(), vec!["a".to_owned(), "b".to_owned()]);
    assert!(!outcome.replayed);
    let again = replayed(Some("r".to_owned())).unwrap();
    assert!(again.replayed && again.events.is_empty() && again.result == "r");
    assert_eq!(replayed(None), None);
}

#[test]
fn events_carry_who_caused_them() {
    let ctx = CommandContext::user(7, 1, "ann".to_owned());
    let event = new_event(9, "run.started".to_owned(), 1, 5, "{}".to_owned(), &ctx);
    assert_eq!(event.causation_id, Some(7));
    assert_eq!(event.correlation_id, 1);
    assert_eq!(event.actor, Actor::User { name: "ann".to_owned() });
    assert_eq!(
        CommandContext::system(7, 1).actor,
        Actor::System { component: "orchestrator".to_owned() }
    );
}

#[test]
fn identifiers_survive_as_results() {
    let text = id_result(0xff);
    assert_eq!(text, "\"00000000-0000-0000-0000-0000000000ff\"");
    assert_eq!(created_id(text), Ok(0xff));
    assert_eq!(created_id("{}".to_owned()), Err(AppError::Duplicate("{}".to_owned())));
    assert_eq!(
        created_id("\"nope\"".to_owned()),
        Err(AppError::Duplicate("\"nope\"".to_owned()))
    );
}

#[test]
fn errors_in_words() {
    let missing = map_domain_error(
        "task",
        1,
        DomainError::NotFound { message: "gone".to_owned() },
    );
    assert_eq!(missing.text(), "task 00000000-0000-0000-0000-000000000001 not found");
    assert!(!missing.is_transient());
    let late = map_domain_error(
        "task",
        1,
        DomainError::InvalidTransition { message: "past".to_owned() },
    );
    assert!(late.is_invalid_transition());
    assert_eq!(late.text(), "past");
    let plan = DomainError::InvalidPlan { errors: vec![], message: "bad".to_owned() };
    assert!(!AppError::Domain(plan).is_invalid_transition());
    assert_eq!(
        AppError::Corrupt { stream: "s".to_owned(), message: "m".to_owned() }.text(),
        "corrupt stream s: m"
    );
    assert_eq!(AppError::Duplicate("x".to_owned()).text(), "command already processed");
    let port = PortError::transient("router", "down".to_owned());
    assert_eq!(AppError::Port(port).text(), "router port: down (transient)");
    assert_eq!(
        PortError::permanent("router", "down".to_owned()).class,
        FailureClass::Permanent
    );
}

#[test]
fn a_single_candidate_scores_one() {
    let selection = RouteSelection::fixed(fake_route());
    assert_eq!(selection.policy, RoutingPolicy::Fixed);
    let info = selection.selection_info();
    assert_eq!(info.candidates, vec![fake_route().model]);
    assert_eq!(info.scores, vec![1.0_f32.to_bits()]);
    let query = SelectRouteQuery::new(TaskKind::Implement, Complexity::Low)
        .excluding(vec!["a".to_owned()]);
    assert_eq!(query.exclude, vec!["a".to_owned()]);
    assert!(IntegrationOutcome { artifacts: vec![], conflicts: vec![] }.is_clean());
}

fn run(status: RunStatus) -> Run {
    Run { id: 1, exists: true, status, ..Run::unknown() }
}

fn running(attempt_id: u128) -> Task {
    Task {
        status: TaskStatus::Running,
        kind: Some(TaskKind::Implement),
        spec: Some(TaskSpec::new("t", "do")),
        budget: Budget {
            max_usd: None,
            max_tokens: None,
            max_wall: None,
            max_attempts: 1,
            max_parallel: 1,
        },
        attempts_used: 1,
        active_attempt: Some(attempt_id),
        last_attempt: Some(Attempt {
            id: attempt_id,
            route: fake_route(),
            workspace: Workspace {
                root: "/w".to_owned(),
                kind: WorkspaceKind::InPlace,
                base_rev: None,
            },
            usage: Usage::zero(),
            summary: None,
            failure: None,
        }),
        usage: Usage::zero(),
        artifacts: vec![],
        can_retry: false,
        terminal: false,
    }
}

fn view(status: RunStatus) -> SagaView {
    let mut view = SagaView::new();
    view.apply(SagaEnvelope {
        aggregate_id: 1,
        aggregate_version: 1,
        occurred_at: 0,
        event: SagaEvent::Run { change: RunChange::Started, run: run(status) },
    });
    view.apply(SagaEnvelope {
        aggregate_id: 5,
        aggregate_version: 1,
        occurred_at: 0,
        event: SagaEvent::Task { change: TaskChange::Created, task: running(50) },
    });
    view
}

#[test]
fn a_restart_ends_dangling_attempts() {
    let executing = view(RunStatus::Executing);
    assert_eq!(
        dangling_attempts(&executing),
        vec![Dangling { task_id: 5, attempt_id: 50 }]
    );
    let end = restarted(50);
    assert_eq!(end.class, FailureClass::RuntimeRestarted);
    assert_eq!(end.attempt_id, 50);
    assert!(needs_actor(&executing));
    assert!(!needs_actor(&view(RunStatus::Completed)));
    assert!(!needs_actor(&SagaView::new()));
    let mut views = BTreeMap::new();
    views.insert(1, executing);
    views.insert(2, view(RunStatus::Failed));
    views.insert(3, view(RunStatus::Planning));
    let mut supervisor = RunSupervisor::new();
    assert_eq!(supervisor.recover(&views), vec![1, 3]);
    assert_eq!(supervisor.active_runs(), 2);
}

fn logged(run_id: u128, position: u64, version: u64, status: RunStatus) -> LoggedEvent {
    LoggedEvent {
        run_id,
        position,
        envelope: SagaEnvelope {
            aggregate_id: run_id,
            aggregate_version: version,
            occurred_at: position as i128,
            event: SagaEvent::Run {
                change: if version == 1 { RunChange::Started } else { RunChange::Other },
                run: Run { id: run_id, ..run(status) },
            },
        },
    }
}

#[test]
fn every_run_is_rebuilt_from_its_own_events() {
    let views = views_of(vec![
        logged(1, 1, 1, RunStatus::Received),
        logged(2, 2, 1, RunStatus::Received),
        logged(1, 3, 2, RunStatus::Planning),
        logged(2, 4, 2, RunStatus::Completed),
        logged(1, 5, 2, RunStatus::Failed),
    ]);
    assert_eq!(views.len(), 2);
    assert_eq!(views[&1].run.status, RunStatus::Planning);
    assert_eq!(views[&1].started_at, Some(1));
    assert_eq!(views[&2].run.status, RunStatus::Completed);
    assert_eq!(views[&2].run_id(), 2);
    assert!(views_of(vec![]).is_empty());
    let page = vec![
        logged(1, 7, 1, RunStatus::Received),
        logged(1, 9, 2, RunStatus::Planning),
    ];
    assert_eq!(next_page(&page), Some(9));
    assert_eq!(next_page(&vec![]), None);
}

#[test]
fn every_run_has_one_actor() {
    let mut supervisor = RunSupervisor::new();
    assert_eq!(supervisor.route(1, false), Delivery::Ignore);
    assert_eq!(supervisor.route(1, true), Delivery::SpawnAndDeliver);
    assert_eq!(supervisor.route(1, true), Delivery::Deliver);
    assert_eq!(supervisor.active_runs(), 1);
    assert!(supervisor.keep_waiting(0, 5));
    assert!(!supervisor.keep_waiting(5, 5));
    supervisor.on_gone(1);
    assert!(!supervisor.keep_waiting(0, 5));
    supervisor.on_spawned(2);
    assert_eq!(supervisor.abort().len(), 1);
    assert_eq!(supervisor.active_runs(), 0);
}

#[test]
fn a_draining_engine_admits_no_runs() {
    let mut supervisor = RunSupervisor::new();
    assert!(supervisor.check_admission().is_ok());
    supervisor.drain();
    assert!(!supervisor.is_admitting());
    assert_eq!(
        supervisor.check_admission().unwrap_err().text(),
        "orchestrator port: draining: not admitting new runs (transient)"
    );
    supervisor.undrain();
    assert!(supervisor.check_admission().is_ok());
}

#[test]
fn booting_and_stopping_have_an_order() {
    let mut steps = vec![BootStep::ReadPosition];
    while *steps.last().unwrap() != BootStep::Ready {
        steps.push(Orchestrator::boot(*steps.last().unwrap()));
    }
    assert_eq!(
        steps,
        vec![
            BootStep::ReadPosition,
            BootStep::ReadEvents,
            BootStep::EndAttempts,
            BootStep::RebuildActors,
            BootStep::Subscribe,
            BootStep::Ready
        ]
    );
    let mut step = ShutdownStep::Drain;
    let mut count = 0;
    while step != ShutdownStep::Stopped {
        step = Orchestrator::shutdown(step);
        count += 1;
    }
    assert_eq!(count, 4);
}

#[test]
fn commands_are_remembered() {
    let mut commands = InMemoryCommands::new();
    assert!(commands.is_empty());
    assert_eq!(commands.begin(7), None);
    assert_eq!(commands.complete(7, "first".to_owned()), "first");
    assert_eq!(commands.complete(7, "second".to_owned()), "first");
    assert_eq!(commands.begin(7), Some("first".to_owned()));
    assert_eq!(commands.len(), 1);
}

#[test]
fn the_router_takes_the_first_route_that_is_left() {
    let mut router = FixedRouter::new(vec![fake_route(), fake_alt_route()]);
    let query = || SelectRouteQuery::new(TaskKind::Implement, Complexity::Low);
    assert_eq!(router.select(query()).unwrap().route, fake_route());
    let retry = query().excluding(vec![fake_route().model]);
    assert_eq!(router.select(retry).unwrap().route, fake_alt_route());
    assert_eq!(router.selections().len(), 2);
    let nobody = Route {
        worker: WorkerKind { name: "none".to_owned() },
        model: "none".to_owned(),
        effort: None,
    };
    assert_ne!(FixedRouter::single(nobody).routes[0], fake_route());
    assert!(FixedRouter::new(vec![]).select(query()).is_err());
    router.record_outcome(RecordRouteOutcome {
        run_id: 1,
        task_id: 5,
        attempt_id: 50,
        task_kind: TaskKind::Implement,
        alias: "m".to_owned(),
        success: true,
        quality: None,
        cost_usd: None,
        wall_ms: 3,
        failure_class: None,
    });
    assert_eq!(router.outcomes().len(), 1);
}

fn understanding(objective: &str) -> Understanding {
    Understanding {
        objective: objective.to_owned(),
        complexity: Complexity::Low,
        success_criteria: vec![],
        assumptions: vec![],
        risks: vec![],
        suggested_task_kinds: vec![],
        context_refs: vec![],
        proposed_questions: vec![],
    }
}

fn plan(rationale: &str) -> Plan {
    Plan { rationale: rationale.to_owned(), tasks: vec![] }
}

#[test]
fn scripts_repeat_their_last_entry() {
    let mut roles = ScriptedRoles::new()
        .with_understanding_error("late", FailureClass::Transient)
        .with_understanding(understanding("u"))
        .with_plan(plan("p"))
        .with_plan_usage(plan("q"), Usage { wall_ms: 3, ..Usage::zero() })
        .with_summary("done");
    let error = roles.understanding().unwrap_err();
    assert_eq!((error.message.as_str(), error.class), ("late", FailureClass::Transient));
    assert_eq!(roles.understanding().unwrap().0.objective, "u");
    assert_eq!(roles.understanding().unwrap().0.objective, "u");
    let goal = Goal { text: "g".to_owned(), cwd: "/r".to_owned(), repo_kind: RepoKind::Git };
    let mut ctx = RoleContext::new(1, goal, RunMode::Headless, fake_route());
    assert_eq!(roles.plan(&ctx).unwrap().0.rationale, "p");
    ctx.repair_errors = vec!["cycle".to_owned()];
    assert!(ctx.is_repair());
    assert_eq!(roles.plan(&ctx).unwrap().1.wall_ms, 3);
    assert_eq!(roles.plan(&ctx).unwrap().0.rationale, "q");
    assert_eq!(roles.plan_calls(), 3);
    assert_eq!(roles.plan_contexts()[1].repair_errors, vec!["cycle".to_owned()]);
    assert_eq!(roles.integrate().0.summary, "done");
    assert_eq!(
        roles.calls(),
        vec![
            "understanding",
            "understanding",
            "understanding",
            "plan",
            "plan",
            "plan",
            "integrate"
        ]
    );
    assert!(ScriptedRoles::new().understanding().is_err());
}

#[test]
fn workspaces_are_counted() {
    let request = |task_id: u128| PrepareWorkspace {
        run_id: 1,
        task_id,
        attempt_id: 9,
        task_slug: "t".to_owned(),
        policy: WorkspacePolicy::Isolated,
    };
    let mut workspaces =
        TempWorkspaces::new("/tmp/w".to_owned()).with_conflicts(vec!["b".to_owned()]);
    let workspace = workspaces.prepare(&request(5));
    assert_eq!(
        workspace.root,
        "/tmp/w/00000000-0000-0000-0000-000000000001/00000000-0000-0000-0000-000000000005"
    );
    assert_eq!(
        workspace.kind,
        WorkspaceKind::GitWorktree {
            branch: "kevin/00000000-0000-0000-0000-000000000005".to_owned()
        }
    );
    let at_root = TempWorkspaces::new("/".to_owned());
    assert!(at_root.dir(1, 5).starts_with("/00000000-"));
    workspaces.cleanup();
    assert_eq!((workspaces.prepared(), workspaces.cleaned()), (1, 1));
    assert_eq!(workspaces.integrate().unwrap().conflicts, vec!["b".to_owned()]);
    assert_eq!(workspaces.integrations(), 1);
    let clean = TempWorkspaces::default_integration(1, 9);
    assert!(clean.is_clean());
    assert_eq!(clean.artifacts[0].id, 9);
    assert!(TempWorkspaces::new(String::new()).integrate().is_none());
}

#[test]
fn integrations_come_in_order_and_the_last_repeats() {
    let mut workspaces = TempWorkspaces::new("/w".to_owned())
        .with_conflicts(vec!["a".to_owned()])
        .with_conflicts(vec![]);
    assert_eq!(workspaces.integrate().unwrap().conflicts.len(), 1);
    assert!(workspaces.integrate().unwrap().conflicts.is_empty());
    assert!(workspaces.integrate().unwrap().conflicts.is_empty());
}

#[test]
fn memory_and_evaluator_record_their_calls() {
    let mut memory = RecordingMemory::with_context("ctx");
    assert_eq!(memory.context_for_intake(), Some("ctx".to_owned()));
    memory.store_lesson(Lesson { run_id: 1, content: "c".to_owned(), tags: vec![] });
    assert_eq!(memory.lessons().len(), 1);
    let evaluation = RunEvaluation {
        evaluation_id: 1,
        overall: 1.0_f32.to_bits(),
        verdict: "pass".to_owned(),
    };
    let mut evaluator = ScriptedEvaluator::new(Some(evaluation));
    assert_eq!(evaluator.evaluate_run().unwrap().verdict, "pass");
    assert_eq!(evaluator.calls(), 1);
    assert_eq!(ScriptedEvaluator::slow(Span::from_secs(3)).delay, Span::from_secs(3));
}

#[test]
fn a_flaky_worker_fails_first() {
    let mut worker = FlakyWorker::new(2, FailureClass::Transient);
    assert_eq!(worker.start(5), Some((FailureClass::Transient, "simulated flake".to_owned())));
    assert!(worker.start(5).is_some());
    assert!(worker.start(5).is_none());
    assert_eq!((worker.attempts(5), worker.attempts(6)), (3, 0));
}

#[test]
fn answers_by_default_say_so() {
    let answer = default_answer("yes");
    assert_eq!(answer.selected, vec!["yes".to_owned()]);
    assert_eq!(answer.free_text, None);
    assert_eq!(answer.answered_by, "default");
}

#[test]
fn a_processed_command_does_nothing_else() {
    let (execution, action) = Execution::start();
    assert_eq!(action, Action::LookUp);
    let (execution, action) = execution.next("run-1", Reply::Known(Some("\"x\"".to_owned())));
    assert_eq!(
        action,
        Action::Done(CommandOutcome {
            result: "\"x\"".to_owned(),
            events: vec![],
            replayed: true
        })
    );
    for reply in [Reply::Decided, Reply::Paused, Reply::Published, Reply::Known(None)] {
        assert!(!execution.accepts(&reply));
    }
}

#[test]
fn a_command_is_appended_recorded_and_published() {
    let execution = Execution::start().0;
    let (execution, action) = execution.next("run-1", Reply::Known(None));
    assert_eq!(action, Action::Load);
    let (execution, action) = execution.next("run-1", Reply::Decided);
    assert_eq!(action, Action::Append);
    let (execution, action) =
        execution.next("run-1", Reply::Appended(Appended::Failed(conflict())));
    assert_eq!(action, Action::Pause(Span::from_millis(10)));
    let (execution, action) = execution.next("run-1", Reply::Paused);
    assert_eq!(action, Action::Load);
    let execution = execution.next("run-1", Reply::Decided).0;
    let (execution, action) =
        execution.next("run-1", Reply::Appended(Appended::Done(vec![stored("run.started")])));
    assert_eq!(action, Action::Record);
    let (execution, action) = execution.next("run-1", Reply::Recorded("null".to_owned()));
    assert_eq!(action, Action::Publish);
    let (_, action) = execution.next("run-1", Reply::Published);
    assert_eq!(
        action,
        Action::Done(CommandOutcome {
            result: "null".to_owned(),
            events: vec![stored("run.started")],
            replayed: false
        })
    );
}

#[test]
fn a_command_that_keeps_losing_is_given_up() {
    let mut execution = Execution::start().0.next("run-1", Reply::Known(None)).0;
    for _ in 0..3 {
        execution = execution.next("run-1", Reply::Decided).0;
        let (paused, action) =
            execution.next("run-1", Reply::Appended(Appended::Failed(conflict())));
        assert!(matches!(action, Action::Pause(_)));
        execution = paused.next("run-1", Reply::Paused).0;
    }
    let execution = execution.next("run-1", Reply::Decided).0;
    let (execution, action) =
        execution.next("run-1", Reply::Appended(Appended::Failed(conflict())));
    assert_eq!(
        action,
        Action::Failed(AppError::Conflict { stream: "run-1".to_owned(), attempts: 4 })
    );
    assert!(!execution.accepts(&Reply::Paused));
    let failed = Execution::start().0.next("run-1", Reply::Failed(AppError::Store(conflict())));
    assert_eq!(failed.1, Action::Failed(AppError::Store(conflict())));
}
