use kevin_orchestrator::domain::{
    Answer, ArtifactKind, ArtifactRef, Budget, FailureClass, Goal, QuestionPolicy,
    QuestionStatus, RepoKind, Route, RunMode, RunStatus, Span, TaskKind, TaskOutcome, TaskSpec,
    TaskStatus, Usage, WorkerKind, Workspace, WorkspaceKind,
};
use kevin_orchestrator::evaluator_port::{is_judged, run_evidence, task_request, task_verdict};
use kevin_orchestrator::events::{
    EventMeta, QuestionEvent, RunEvent, RunFailureReason, TaskEvent,
};
use kevin_orchestrator::money::Amount;
use kevin_orchestrator::projections::artifacts::{insert, Artifacts};
use kevin_orchestrator::projections::cost_ledger::CostLedger;
use kevin_orchestrator::projections::query::{
    cost_report, decode_cursor, log_page, page, ArtifactRow, AttemptState, CostLedgerRow, CostRow, Cursor, Keyed,
    Producer, QuestionInboxRow, RunOverviewRow, TaskBoardRow, TaskLogQuery, TaskLogRow, Usd,
};
use kevin_orchestrator::projections::question_inbox::{policy_columns, QuestionInbox};
use kevin_orchestrator::projections::run_overview::{mode_columns, repo_kind_str, RunOverview};
use kevin_orchestrator::projections::runner::{
    head_position, set_checkpoint, BusMessage, Delivery, Next, ProjectionRunner,
};
use kevin_orchestrator::projections::task_board::{recompute_usage, TaskBoard};
use kevin_orchestrator::projections::task_log::{
    append_line, is_pruned, line_number, lock_key, prune_older_than_days, NewTaskLogLine,
    TaskLogProjection,
};
use kevin_orchestrator::projections::{
    all, by_name, clamp, column_sum, error_text, excerpt, names, ProjectionError, UsageCols,
};

fn meta(version: u64) -> EventMeta {
    EventMeta {
        event_id: 900 + version as u128,
        aggregate_id: 5,
        aggregate_version: version,
        run_id: 1,
        position: 10 * version,
        occurred_at: 1000 * version as i64,
    }
}

fn budget() -> Budget {
    Budget {
        max_usd: None,
        max_tokens: None,
        max_wall: None,
        max_attempts: 3,
        max_parallel: 2,
    }
}

fn route() -> Route {
    Route {
        worker: WorkerKind { name: "fake".to_owned() },
        model: "m".to_owned(),
        effort: Some("low".to_owned()),
    }
}

fn usage(tokens: u64, cents: Option<i128>) -> Usage {
    Usage {
        input_tokens: tokens,
        output_tokens: tokens,
        cache_read_tokens: 0,
        cache_write_tokens: 0,
        cost_usd: cents.map(|mantissa| Amount { mantissa, scale: 2 }),
        wall_ms: tokens,
    }
}

fn artifact(id: u128) -> ArtifactRef {
    ArtifactRef {
        id,
        kind: ArtifactKind::PrUrl,
        uri: format!("u{id}"),
        sha256: None,
        bytes: Some(u64::MAX),
    }
}

fn fold_run(events: Vec<RunEvent>) -> RunOverviewRow {
    let goal = Goal {
        text: "x".repeat(200),
        cwd: "/r".to_owned(),
        repo_kind: RepoKind::Git,
    };
    let mut row = RunOverview::new()
        .handle(
            None,
            1,
            RunEvent::Started {
                goal,
                mode: RunMode::Headless,
                budget: budget(),
                requested_by: "me".to_owned(),
                auto_approve_plans: true,
            },
            &meta(1),
        )
        .unwrap();
    for (i, event) in events.into_iter().enumerate() {
        row = RunOverview::new().handle(row, 1, event, &meta(i as u64 + 2)).unwrap();
    }
    row.unwrap()
}

#[test]
fn a_run_is_seen_from_start_to_end() {
    let row = fold_run(vec![
        RunEvent::UnderstandingStarted { planner_route: route() },
        RunEvent::UnderstandingCompleted {
            understanding: "{}".to_owned(),
            usage: usage(3, Some(5)),
            question_ids: vec![7, 8, 7],
        },
        RunEvent::QuestionAnswered { question_id: 7 },
    ]);
    assert_eq!(row.goal_excerpt.chars().count(), 160);
    assert!(row.goal_excerpt.ends_with('…'));
    assert_eq!(row.status, RunStatus::AwaitingAnswers);
    assert_eq!(row.open_question_ids, vec![8]);
    assert_eq!(row.input_tokens, 3);
    assert_eq!(row.cost_usd.get().unwrap().text(), "0.05");
    assert_eq!(row.version, 4);
    assert_eq!(row.last_position, 40);
    let row = fold_run(vec![
        RunEvent::UnderstandingCompleted {
            understanding: "{}".to_owned(),
            usage: usage(3, Some(5)),
            question_ids: vec![7],
        },
        RunEvent::QuestionAnswered { question_id: 7 },
        RunEvent::PlanProposed { plan: "{}".to_owned(), usage: usage(4, Some(6)), revision: 2 },
    ]);
    assert_eq!(row.status, RunStatus::AwaitingPlanApproval);
    assert_eq!(row.plan_revision, 2);
    assert_eq!(row.input_tokens, 7);
    assert_eq!(row.cost_usd.get().unwrap().text(), "0.11");
    let row = fold_run(vec![
        RunEvent::ExecutionStarted { task_ids: vec![5, 6] },
        RunEvent::TaskTerminalNoted {
            outcome: TaskOutcome::Succeeded,
            run_usage: usage(9, None),
            all_terminal: false,
        },
        RunEvent::TaskTerminalNoted {
            outcome: TaskOutcome::Skipped,
            run_usage: usage(9, None),
            all_terminal: true,
        },
        RunEvent::Integrated { artifacts: vec![artifact(3)], summary: "s".to_owned() },
        RunEvent::Evaluated {
            evaluation_id: 4,
            overall: 0.5_f32.to_bits(),
            verdict: "pass".to_owned(),
        },
        RunEvent::Completed { summary: "done".to_owned(), usage: usage(10, Some(1)) },
    ]);
    assert_eq!(row.status, RunStatus::Completed);
    assert_eq!((row.tasks_total, row.tasks_succeeded, row.tasks_skipped), (2, 1, 1));
    assert_eq!(row.evaluation_verdict, Some("pass".to_owned()));
    assert_eq!(row.summary, Some("done".to_owned()));
    assert_eq!(row.artifacts.len(), 1);
    let row = fold_run(vec![RunEvent::Failed {
        reason: RunFailureReason::TaskFailed,
        class: FailureClass::Permanent,
        usage: usage(1, None),
        message: Some("why".to_owned()),
    }]);
    assert_eq!(row.status, RunStatus::Failed);
    assert_eq!(row.failure_reason, Some("task_failed".to_owned()));
    assert_eq!(row.failure_message, Some("why".to_owned()));
    let row = fold_run(vec![RunEvent::Cancelled {
        by: "me".to_owned(),
        reason: Some("enough".to_owned()),
    }]);
    assert_eq!(row.status, RunStatus::Cancelled);
    assert_eq!(row.cancel_reason, Some("enough".to_owned()));
}

#[test]
fn events_of_the_past_change_nothing() {
    let row = fold_run(vec![RunEvent::PlanApproved]);
    let copy = fold_run(vec![RunEvent::PlanApproved]);
    let again = RunOverview::new()
        .handle(
            Some(row),
            1,
            RunEvent::Cancelled { by: "me".to_owned(), reason: None },
            &meta(2),
        )
        .unwrap();
    assert_eq!(again, Some(copy));
    assert_eq!(
        RunOverview::new().handle(None, 1, RunEvent::PlanApproved, &meta(2)),
        Ok(None)
    );
}

#[test]
fn columns_that_overflow_are_refused() {
    let mut row = fold_run(vec![]);
    row.input_tokens = i64::MAX;
    let event = RunEvent::PlanProposed {
        plan: "{}".to_owned(),
        usage: usage(1, None),
        revision: 0,
    };
    assert_eq!(
        RunOverview::new().handle(Some(row), 1, event, &meta(2)),
        Err(ProjectionError::OutOfRange)
    );
}

fn fold_task(events: Vec<TaskEvent>) -> TaskBoardRow {
    let mut row = TaskBoard::new()
        .handle(
            None,
            5,
            3,
            TaskEvent::Created {
                run_id: 1,
                kind: TaskKind::Implement,
                spec: TaskSpec::new("t", "do"),
                budget: budget(),
            },
            &meta(1),
        )
        .unwrap();
    for (i, event) in events.into_iter().enumerate() {
        row = TaskBoard::new().handle(row, 5, 0, event, &meta(i as u64 + 2)).unwrap();
    }
    row.unwrap()
}

fn started(attempt_id: u128, attempt_no: u16) -> TaskEvent {
    TaskEvent::AttemptStarted {
        attempt_id,
        attempt_no,
        route: route(),
        workspace: Workspace {
            root: "/w".to_owned(),
            kind: WorkspaceKind::InPlace,
            base_rev: None,
        },
        worker_session_id: None,
    }
}

#[test]
fn a_task_sums_its_attempts() {
    let row = fold_task(vec![
        TaskEvent::Routed { route: route(), selection: "{}".to_owned() },
        started(50, 1),
        TaskEvent::Progressed {
            attempt_id: 50,
            summary: "half".to_owned(),
            usage_delta: usage(2, Some(1)),
            log_seq: 9,
        },
        TaskEvent::AttemptFailed {
            attempt_id: 50,
            class: FailureClass::Transient,
            message: "late".to_owned(),
            usage: usage(5, Some(4)),
        },
        TaskEvent::Retried,
        started(51, 2),
        TaskEvent::AttemptSucceeded {
            attempt_id: 51,
            artifacts: vec![artifact(3)],
            summary: "done".to_owned(),
            usage: usage(7, None),
        },
    ]);
    assert_eq!(row.status, TaskStatus::Succeeded);
    assert_eq!(row.seq, 3);
    assert_eq!(row.attempt_count, 2);
    assert_eq!(row.input_tokens, 12);
    assert_eq!(row.cost_usd.get().unwrap().text(), "0.04");
    assert_eq!(row.attempts[0].status, AttemptState::Failed);
    assert_eq!(row.attempts[0].last_log_seq, 9);
    assert_eq!(row.attempts[1].ended_at, Some(8000));
    assert_eq!(row.summary, Some("done".to_owned()));
    assert_eq!(row.artifacts.len(), 1);
    assert_eq!(row.ended_at, Some(8000));
}

#[test]
fn a_task_waits_for_answers() {
    let row = fold_task(vec![
        started(50, 1),
        TaskEvent::InputRequested { attempt_id: 50, question_id: 8 },
    ]);
    assert_eq!(row.status, TaskStatus::AwaitingInput);
    assert_eq!(row.awaiting_question_id, Some(8));
    assert_eq!(row.attempts[0].pending_question, Some(8));
    let row = fold_task(vec![
        started(50, 1),
        TaskEvent::InputRequested { attempt_id: 50, question_id: 8 },
        TaskEvent::InputProvided { attempt_id: 50 },
    ]);
    assert_eq!(row.status, TaskStatus::Running);
    assert_eq!(row.awaiting_question_id, None);
    assert_eq!(row.attempts[0].pending_question, None);
}

#[test]
fn cancelling_ends_the_open_attempt() {
    let row = fold_task(vec![
        started(50, 1),
        TaskEvent::AttemptFailed {
            attempt_id: 50,
            class: FailureClass::Transient,
            message: "late".to_owned(),
            usage: usage(1, None),
        },
        TaskEvent::Retried,
        started(51, 2),
        TaskEvent::Cancelled { reason: "enough".to_owned() },
    ]);
    assert_eq!(row.status, TaskStatus::Cancelled);
    assert_eq!(row.failure_class, Some(FailureClass::Cancelled));
    assert_eq!(row.attempts[0].failure.as_ref().unwrap().message, "late");
    assert_eq!(row.attempts[1].failure.as_ref().unwrap().message, "enough");
    assert_eq!(row.attempts[1].status, AttemptState::Failed);
    let row = fold_task(vec![TaskEvent::Skipped { reason: "blocked".to_owned() }]);
    assert_eq!(row.status, TaskStatus::Skipped);
    assert!(row.attempts.is_empty());
}

fn ledger(events: Vec<TaskEvent>) -> Option<CostLedgerRow> {
    let mut row = None;
    for (i, event) in events.into_iter().enumerate() {
        row = CostLedger::new().handle(
            row,
            &event,
            &meta(i as u64 + 1),
            Some("implement".to_owned()),
        );
    }
    row
}

#[test]
fn every_attempt_has_a_ledger_line() {
    let failed = || TaskEvent::AttemptFailed {
        attempt_id: 50,
        class: FailureClass::Budget,
        message: "m".to_owned(),
        usage: usage(4, Some(123)),
    };
    let row = ledger(vec![started(50, 1), failed()]).unwrap();
    assert_eq!(row.task_kind, "implement");
    assert_eq!((row.worker.as_str(), row.model_alias.as_str()), ("fake", "m"));
    assert_eq!(row.status, AttemptState::Failed);
    assert_eq!(row.failure_class, Some(FailureClass::Budget));
    assert_eq!(row.cost_usd, Usd(Some(Amount { mantissa: 123, scale: 2 })));
    assert_eq!(row.ended_at, Some(2000));
    assert!(ledger(vec![failed()]).is_none());
    let unknown = CostLedger::new().handle(None, &started(50, 1), &meta(1), None).unwrap();
    assert_eq!(unknown.task_kind, "unknown");
    let same = CostLedger::new().handle(Some(unknown), &failed(), &meta(1), None).unwrap();
    assert_eq!(same.status, AttemptState::Running);
}

fn inbox(events: Vec<QuestionEvent>) -> QuestionInboxRow {
    let asked = QuestionEvent::Asked {
        run_id: 1,
        task_id: Some(5),
        text: "which?".to_owned(),
        options: vec![],
        multi_select: false,
        default: None,
        policy: QuestionPolicy::DefaultAfter { timeout: Span::from_secs(2) },
    };
    let mut row = QuestionInbox::new().handle(None, 8, asked, &meta(1));
    for (i, event) in events.into_iter().enumerate() {
        row = QuestionInbox::new().handle(row, 8, event, &meta(i as u64 + 2));
    }
    row.unwrap()
}

fn answer() -> QuestionEvent {
    QuestionEvent::Answered {
        answer: Answer {
            selected: vec!["a".to_owned()],
            free_text: None,
            answered_by: "me".to_owned(),
        },
        answered_by: "me".to_owned(),
    }
}

#[test]
fn questions_are_answered_or_expire() {
    let row = inbox(vec![]);
    assert_eq!(row.status, QuestionStatus::Open);
    assert_eq!(row.timeout_ms, Some(2000));
    let row = inbox(vec![answer()]);
    assert_eq!(row.status, QuestionStatus::Answered);
    assert_eq!(row.answered_by, Some("me".to_owned()));
    assert_eq!(row.answered_at, Some(2000));
    let row = inbox(vec![QuestionEvent::Expired { applied_default: false }]);
    assert_eq!(row.status, QuestionStatus::Expired);
    let row = inbox(vec![QuestionEvent::Expired { applied_default: true }, answer()]);
    assert_eq!(row.status, QuestionStatus::Answered);
    assert!(row.applied_default);
    assert!(QuestionInbox::new().handle(None, 8, answer(), &meta(1)).is_none());
    assert_eq!(policy_columns(QuestionPolicy::Block), ("block", None));
    let ever = QuestionPolicy::DefaultAfter { timeout: Span { secs: u64::MAX, nanos: 0 } };
    assert_eq!(policy_columns(ever), ("default_after", Some(i64::MAX)));
}

#[test]
fn the_newest_producer_of_an_artifact_wins() {
    let done = TaskEvent::AttemptSucceeded {
        attempt_id: 50,
        artifacts: vec![artifact(3)],
        summary: String::new(),
        usage: Usage::zero(),
    };
    let (items, origin) = Artifacts::new().handle_task(&done, &meta(2));
    assert_eq!(items, vec![artifact(3)]);
    let row = insert(None, &items[0], origin);
    assert_eq!(row.bytes, Some(i64::MAX));
    assert_eq!(row.attempt_id, Some(50));
    assert_eq!(row.produced_by, Producer::Task);
    let integrated =
        RunEvent::Integrated { artifacts: vec![artifact(3)], summary: String::new() };
    let (items, later) = Artifacts::new().handle_run(&integrated, &meta(3));
    let row = insert(Some(row), &items[0], later);
    assert_eq!(row.produced_by, Producer::Run);
    assert_eq!((row.created_at, row.updated_at), (2000, 3000));
    let row = insert(Some(row), &items[0], origin);
    assert_eq!(row.produced_by, Producer::Run);
    assert!(Artifacts::new().handle_run(&RunEvent::PlanApproved, &meta(3)).0.is_empty());
}

#[test]
fn log_lines_are_numbered_per_attempt() {
    let line = || NewTaskLogLine::new(5, 1, "text".to_owned(), "{}".to_owned(), 7);
    let row = append_line(line().at(8).run(1).attempt_id(50), None, false).unwrap().unwrap();
    assert_eq!((row.seq, row.at, row.run_id, row.attempt_id), (1, 8, Some(1), Some(50)));
    assert_eq!(append_line(line(), Some(4), true).unwrap().unwrap().seq, 5);
    assert_eq!(
        append_line(line(), Some(i64::MAX), false),
        Err(ProjectionError::OutOfRange)
    );
    let system = TaskLogProjection::new().handle(
        &TaskEvent::Skipped { reason: "r".to_owned() },
        "{}".to_owned(),
        &meta(2),
        Some(4),
    );
    assert_eq!((system.attempt, system.kind.as_str()), (0, "system"));
    assert_eq!(system.source_event_id, Some(902));
    assert_eq!(append_line(system, Some(4), true), Ok(None));
    let of_attempt = TaskLogProjection::new().handle(
        &TaskEvent::InputProvided { attempt_id: 50 },
        "{}".to_owned(),
        &meta(2),
        Some(4),
    );
    assert_eq!(of_attempt.attempt, 4);
    let of_start =
        TaskLogProjection::new().handle(&started(50, 6), "{}".to_owned(), &meta(2), None);
    assert_eq!(of_start.attempt, 6);
    assert_eq!((line_number(Some(3)), line_number(None)), (3, 0));
}

#[test]
fn old_log_lines_are_pruned() {
    let day: i64 = 86_400_000_000;
    let cutoff = prune_older_than_days(10 * day, 3).unwrap();
    assert_eq!(cutoff, 7 * day);
    let line = |at: i64| {
        let new = NewTaskLogLine::new(5, 1, "text".to_owned(), "{}".to_owned(), at);
        append_line(new, None, false).unwrap().unwrap()
    };
    assert!(is_pruned(&line(cutoff - 1), cutoff));
    assert!(!is_pruned(&line(cutoff), cutoff));
    assert_eq!(prune_older_than_days(0, u32::MAX), None);
}

#[test]
fn the_lock_of_a_task_is_its_first_word() {
    assert_eq!(lock_key(0x0000_0001_0000_0000_0000_0000_0000_00ff), 1);
    assert_eq!(lock_key(u128::MAX), -1);
    assert_eq!(lock_key(0xff), 0);
}

#[test]
fn log_pages_follow_the_numbers() {
    let rows = || {
        (1..4)
            .map(|seq| {
                let new = NewTaskLogLine::new(5, 1, "text".to_owned(), "{}".to_owned(), 0);
                append_line(new, Some(seq - 1), false).unwrap().unwrap()
            })
            .collect::<Vec<_>>()
    };
    let page = log_page(rows(), 3);
    assert_eq!(page.items.len(), 3);
    assert_eq!(page.next_cursor, Some("3".to_owned()));
    assert_eq!(log_page(rows(), 4).next_cursor, None);
    assert_eq!(log_page(vec![], 0).next_cursor, None);
    let mut query = TaskLogQuery::new(5);
    assert_eq!(query.after(), 0);
    query.after_seq = Some(u64::MAX);
    assert_eq!(query.after(), i64::MAX);
    query.after_seq = Some(7);
    assert_eq!(query.after(), 7);
}

#[test]
fn costs_are_added_up() {
    let row = |key: &str, cents: Option<i128>| CostRow {
        key: key.to_owned(),
        usd: cents.map(|mantissa| Amount { mantissa, scale: 2 }),
        input_tokens: 3,
        output_tokens: 4,
        attempts: 1,
    };
    let report = cost_report(vec![row("a", Some(150)), row("b", None), row("c", Some(25))]);
    let report = report.unwrap();
    assert_eq!(report.total_usd.unwrap().text(), "1.75");
    assert_eq!(report.total_tokens, 21);
    assert_eq!(report.rows.len(), 3);
    assert_eq!(cost_report(vec![row("b", None)]).unwrap().total_usd, None);
    assert!(cost_report(vec![]).unwrap().rows.is_empty());
}

#[test]
fn projections_are_found_by_name() {
    assert_eq!(all().len(), 6);
    assert_eq!(
        names(),
        vec![
            "run_overview",
            "task_board",
            "question_inbox",
            "cost_ledger",
            "task_log",
            "artifacts"
        ]
    );
    for name in names() {
        assert_eq!(by_name(name).unwrap().name(), name);
    }
    let error = by_name("nope").unwrap_err();
    assert_eq!(error, ProjectionError::UnknownProjection { name: "nope".to_owned() });
    assert!(error_text(&error).contains("nope"));
    assert!(by_name("task_board").unwrap().handles("task.created"));
    assert!(!by_name("task_board").unwrap().handles("run.started"));
    assert!(by_name("artifacts").unwrap().handles("run.integrated"));
    assert!(by_name("run_overview").unwrap().handles("run.started"));
}

#[test]
fn numbers_are_kept_in_their_columns() {
    assert_eq!((clamp(7), clamp(u64::MAX)), (7, i64::MAX));
    assert_eq!(column_sum(1, 2), Some(3));
    assert_eq!(column_sum(i64::MAX, 1), None);
    let cols = UsageCols::new(&usage(2, Some(250)));
    assert_eq!(cols.cost_text(), Some("2.50".to_owned()));
    assert_eq!(UsageCols::new(&usage(2, None)).cost_text(), None);
    assert_eq!(excerpt("short", 10), "short");
    assert_eq!(excerpt("abcdef", 4), "abc…");
    assert_eq!(repo_kind_str(RepoKind::Git), "git");
    let kohral = RunMode::Kohral {
        turn_id: "t".to_owned(),
        session_key: "s".to_owned(),
        session_id: "i".to_owned(),
    };
    let (name, detail) = mode_columns(&kohral);
    assert_eq!(name, "kohral");
    assert_eq!(detail.unwrap().turn_id, "t");
    assert!(mode_columns(&RunMode::Headless).1.is_none());
}

fn delivery(position: u64, event_type: &str) -> Delivery {
    Delivery { position, event_type: event_type.to_owned() }
}

#[test]
fn a_runner_folds_what_is_new() {
    let mut runner = ProjectionRunner::new(by_name("task_board").unwrap()).with_batch(0);
    assert_eq!(runner.batch, 256);
    assert_eq!(runner.load_checkpoint(Some(4)), 4);
    let plan = runner
        .plan(&vec![
            delivery(4, "task.created"),
            delivery(5, "run.started"),
            delivery(6, "task.created"),
        ])
        .unwrap();
    assert_eq!(plan.fold, vec![2]);
    assert_eq!(plan.checkpoint, 6);
    runner.committed(plan.checkpoint);
    assert_eq!(runner.position(), 6);
    runner.committed(3);
    assert_eq!(runner.position(), 6);
    assert!(runner.plan(&vec![]).is_none());
    assert_eq!(runner.on_message(BusMessage::Live { position: 6 }), Next::Skip);
    assert_eq!(runner.on_message(BusMessage::Live { position: 7 }), Next::Apply);
    assert_eq!(runner.on_message(BusMessage::Live { position: 9 }), Next::CatchUp);
    assert_eq!(runner.on_message(BusMessage::Lagged { from: 7, to: 8 }), Next::CatchUp);
    assert_eq!((runner.lag(10), runner.lag(2)), (4, 0));
    assert_eq!(runner.report(3).events, 3);
    runner.restart();
    assert_eq!(runner.position(), 0);
    assert_eq!((head_position(Some(-1)), head_position(None)), (0, 0));
    assert_eq!(set_checkpoint(Some(9), 4), 9);
    assert_eq!(set_checkpoint(None, u64::MAX), i64::MAX);
}

#[test]
fn a_task_is_judged_by_its_row() {
    let row = fold_task(vec![
        TaskEvent::Routed { route: route(), selection: "{}".to_owned() },
        started(50, 1),
        TaskEvent::AttemptSucceeded {
            attempt_id: 50,
            artifacts: vec![artifact(3)],
            summary: "done".to_owned(),
            usage: usage(7, Some(4)),
        },
    ]);
    assert!(is_judged(&row, true));
    assert!(!is_judged(&row, false));
    assert!(!is_judged(&fold_task(vec![]), true));
    let request = task_request(&row, &vec![]);
    assert_eq!(request.evidence.goal, "t\n\ndo");
    assert_eq!(request.evidence.transcript_summary, Some("done".to_owned()));
    assert_eq!(request.evidence.usage, usage(7, Some(4)));
    assert_eq!(request.executor_route, Some(route()));
    assert_eq!(request.attempt_id, Some(50));
    assert_eq!(task_request(&fold_task(vec![]), &vec![]).attempt_id, None);
    let verdict = task_verdict(&row, Some((1.0_f32.to_bits(), "pass".to_owned())));
    assert_eq!((verdict.title.as_str(), verdict.verdict), ("t", Some("pass".to_owned())));
    assert_eq!(task_verdict(&row, None).overall, None);
}

#[test]
fn a_run_is_judged_by_its_criteria_and_plan() {
    let row = fold_run(vec![
        RunEvent::UnderstandingCompleted {
            understanding: "{\"success_criteria\":[\"c1\",2,\"c2\"]}".to_owned(),
            usage: usage(3, None),
            question_ids: vec![],
        },
        RunEvent::PlanProposed {
            plan: "{\"tasks\":[{\"kind\":\"write\",\"title\":\"a\"}]}".to_owned(),
            usage: usage(1, None),
            revision: 0,
        },
        RunEvent::UsageRecorded { run_usage: usage(9, None) },
        RunEvent::Integrated { artifacts: vec![artifact(3)], summary: "merged".to_owned() },
    ]);
    let stored = insert(
        None,
        &artifact(3),
        Artifacts::new().handle_run(&RunEvent::PlanApproved, &meta(3)).1,
    );
    let evidence = run_evidence(&row, &vec![stored], vec![]);
    assert_eq!(evidence.success_criteria, vec!["c1".to_owned(), "c2".to_owned()]);
    assert_eq!(evidence.acceptance_criteria, evidence.success_criteria);
    assert_eq!(evidence.plan, Some("- write: a".to_owned()));
    assert_eq!(evidence.integration, Some("merged".to_owned()));
    assert_eq!(evidence.artifacts[0].uri, "u3");
    assert_eq!(evidence.usage, usage(9, None));
    assert!(run_evidence(&fold_run(vec![]), &vec![], vec![]).plan.is_none());
}

#[test]
fn a_batch_can_be_replayed() {
    let events = || {
        vec![
            RunEvent::UnderstandingStarted { planner_route: route() },
            RunEvent::PlanProposed {
                plan: "{}".to_owned(),
                usage: usage(4, Some(6)),
                revision: 1,
            },
            RunEvent::PlanRejected,
        ]
    };
    let mut row = Some(fold_run(events()));
    for (i, event) in events().into_iter().enumerate() {
        row = RunOverview::new().handle(row, 1, event, &meta(i as u64 + 2)).unwrap();
    }
    assert_eq!(row, Some(fold_run(events())));
}

#[test]
fn a_rebuild_gives_the_same_rows() {
    let events = || {
        vec![
            started(50, 1),
            TaskEvent::InputRequested { attempt_id: 50, question_id: 8 },
            TaskEvent::Cancelled { reason: "enough".to_owned() },
        ]
    };
    assert_eq!(fold_task(events()), fold_task(events()));
    let closing = || {
        vec![
            started(50, 1),
            TaskEvent::AttemptSucceeded {
                attempt_id: 50,
                artifacts: vec![],
                summary: "s".to_owned(),
                usage: usage(3, Some(7)),
            },
        ]
    };
    assert_eq!(ledger(closing()), ledger(closing()));
    assert_eq!(inbox(vec![answer()]), inbox(vec![answer()]));
}

#[test]
fn following_cursors_visits_every_row_once() {
    let row = |at: i64, id: u128| {
        let mut row = fold_run(vec![]);
        row.updated_at = at;
        row.run_id = id;
        row
    };
    let keys = [(3, 9), (3, 4), (2, 7), (1, 8)];
    let mut seen = Vec::new();
    let mut cursor: Option<Cursor> = None;
    loop {
        let rows: Vec<RunOverviewRow> = keys
            .iter()
            .filter(|(at, id)| cursor.map_or(true, |c| (*at, *id) < (c.at, c.id)))
            .take(2)
            .map(|(at, id)| row(*at, *id))
            .collect();
        let page = page(rows, 2);
        seen.extend(page.items.iter().map(|r| (r.updated_at, r.run_id)));
        if let Some(last) = page.items.last() {
            assert_eq!(page.next_cursor, Some(last.cursor().encode()));
        }
        cursor = decode_cursor(&page.next_cursor).unwrap();
        if cursor.is_none() {
            break;
        }
    }
    assert_eq!(seen, keys);
}

#[test]
fn an_excerpt_is_never_longer_than_asked() {
    assert_eq!(excerpt("long line", 0), "");
    assert_eq!(excerpt("long line", 1), "…");
    assert_eq!(excerpt("long line", 5), "long…");
    assert_eq!(excerpt("  \nrest", 5), "");
}

#[test]
fn usage_columns_follow_the_attempts() {
    let mut row = fold_task(vec![
        started(70, 1),
        TaskEvent::AttemptSucceeded {
            attempt_id: 70,
            artifacts: vec![],
            summary: "s".to_owned(),
            usage: usage(4, Some(9)),
        },
    ]);
    row.input_tokens = 99;
    row.cost_usd = Usd(None);
    let row = recompute_usage(row).unwrap();
    assert_eq!(row.input_tokens, 4);
    assert_eq!(row.cost_usd.get().unwrap().text(), "0.09");
    assert!(usage(4, Some(9)).is_valid());
    assert!(!Amount { mantissa: i128::MAX, scale: 0 }.is_valid());
    assert!(!Amount { mantissa: 1, scale: 29 }.is_valid());
}

fn write_artifacts(table: &mut Vec<ArtifactRow>, version: u64, ids: &[u128]) {
    let done = TaskEvent::AttemptSucceeded {
        attempt_id: 50 + u128::from(version),
        artifacts: ids.iter().map(|id| artifact(*id)).collect(),
        summary: String::new(),
        usage: Usage::zero(),
    };
    let (items, origin) = Artifacts::new().handle_task(&done, &meta(version));
    for item in &items {
        let old = table.iter().position(|r| r.artifact_id == item.id).map(|i| table.remove(i));
        table.push(insert(old, item, origin));
    }
    table.sort_by_key(|r| r.artifact_id);
}

#[test]
fn artifacts_survive_a_replay() {
    let batch: [(u64, &[u128]); 3] = [(2, &[3, 4, 3]), (3, &[4]), (5, &[6])];
    let rows = |plan: &[(u64, &[u128])]| {
        let mut table = Vec::new();
        for (version, ids) in plan {
            write_artifacts(&mut table, *version, ids);
        }
        table
    };
    let once = rows(&batch);
    assert_eq!(once.len(), 3);
    let mut again = batch.to_vec();
    again.extend(batch);
    assert_eq!(rows(&again), once);
    let resumed = [batch[0], batch[1], batch[1], batch[2], batch[0]];
    assert_eq!(rows(&resumed), once);
}

#[test]
fn log_lines_survive_a_replay() {
    let line = |version: u64| {
        let event = TaskEvent::Skipped { reason: "r".to_owned() };
        TaskLogProjection::new().handle(&event, "{}".to_owned(), &meta(version), None)
    };
    let append = |log: &mut Vec<TaskLogRow>, line: NewTaskLogLine| {
        let head = log.iter().map(|r| r.seq).max();
        let known = log.iter().any(|r| r.source_event_id == line.source_event_id);
        if let Some(row) = append_line(line, head, known).unwrap() {
            log.push(row);
        }
    };
    let mut log = Vec::new();
    for version in [2, 3, 4, 2, 3, 4, 5, 3] {
        append(&mut log, line(version));
    }
    let numbers: Vec<(i64, Option<u128>)> =
        log.iter().map(|r| (r.seq, r.source_event_id)).collect();
    assert_eq!(
        numbers,
        vec![(1, Some(902)), (2, Some(903)), (3, Some(904)), (4, Some(905))]
    );
}
