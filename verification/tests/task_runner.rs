use kevin_orchestrator::commands::Recorded;
use kevin_orchestrator::convert::WorkerUsage;
use kevin_orchestrator::domain::{
    Answer, Budget, FailureClass, QuestionPolicy, Route, RunMode, Span, TaskKind, TaskSpec, Usage,
    WorkerKind, Workspace, WorkspaceKind,
};
use kevin_orchestrator::money::Amount;
use kevin_orchestrator::task_runner::{
    answer_text, summarise, AttemptResult, AttemptSpec, BudgetExcess, FoldStep, Phase,
    ProgressStep, Settled, TaskRunner, TerminalCommand, TerminalEvent, UsageRecorded, UsageStep,
    WorkerEvent, ATTEMPT_TIMEOUT,
};

#[test]
fn summaries_are_bounded() {
    let long = "x".repeat(500);
    let summary = summarise(&long);
    assert_eq!(summary.chars().count(), 201);
    assert_eq!(summarise("  hi  "), "hi");
}

fn answer(selected: &[&str], free_text: Option<&str>) -> Answer {
    Answer {
        selected: selected.iter().map(|s| (*s).to_owned()).collect(),
        free_text: free_text.map(|s| s.to_owned()),
        answered_by: "user".to_owned(),
    }
}

#[test]
fn answer_text_prefers_selected_labels() {
    assert_eq!(answer_text(&answer(&["a", "b"], None)), "a, b");
    assert_eq!(answer_text(&answer(&[], Some("hello"))), "hello");
}

#[test]
fn phase_names_are_snake_case() {
    assert_eq!(Phase::AwaitingInput.as_str(), "awaiting_input");
    assert_eq!(Phase::Starting.as_str(), "starting");
}

fn attempt(mode: RunMode) -> AttemptSpec {
    AttemptSpec {
        run_id: 1,
        task_id: 2,
        attempt_id: 3,
        attempt_no: 1,
        kind: TaskKind::Implement,
        spec: TaskSpec::new("t", "do it"),
        route: Route {
            worker: WorkerKind { name: "fake".to_owned() },
            model: "m".to_owned(),
            effort: None,
        },
        workspace: Workspace {
            root: "/tmp".to_owned(),
            kind: WorkspaceKind::InPlace,
            base_rev: None,
        },
        budget: Budget {
            max_usd: None,
            max_tokens: Some(9),
            max_wall: None,
            max_attempts: 1,
            max_parallel: 1,
        },
        timeout: Span::from_secs(60),
        mode,
        memory: None,
        system_prompt_append: "brief".to_owned(),
        prior_session: None,
    }
}

fn streaming() -> TaskRunner {
    let mut runner = TaskRunner::new(attempt(RunMode::Headless), 0);
    runner.on_started();
    runner
}

fn tokens(n: u64) -> WorkerUsage {
    WorkerUsage {
        input_tokens: n,
        output_tokens: 0,
        cache_read_tokens: 0,
        cache_write_tokens: 0,
        cost_usd: Some(Amount { mantissa: 1, scale: 2 }),
        wall_ms: 0,
    }
}

const INTERVAL: Span = Span { secs: 5, nanos: 0 };

fn say(runner: &mut TaskRunner, text: &str, now: i128) -> FoldStep {
    let event = WorkerEvent::AssistantText { delta: text.to_owned() };
    runner.fold(&event, now, INTERVAL)
}

#[test]
fn missing_workers_and_models_fail_for_good() {
    let runner = streaming();
    assert_eq!(
        runner.request(false, true),
        Err(AttemptResult::Failed {
            class: FailureClass::Permanent,
            message: "no worker adapter registered for `fake`".to_owned(),
        })
    );
    assert_eq!(
        runner.request(true, false),
        Err(AttemptResult::Failed {
            class: FailureClass::Permanent,
            message: "unknown model alias `m`".to_owned(),
        })
    );
    let request = runner.request(true, true).unwrap();
    assert_eq!(request.max_tokens, Some(9));
    assert_eq!(request.route.worker, "fake");
    assert_eq!(request.spec.title, "t");
}

#[test]
fn progress_is_throttled() {
    let mut runner = streaming();
    assert_eq!(say(&mut runner, "working", 1), FoldStep::Progress(ProgressStep::Nothing));
    assert_eq!(
        say(&mut runner, "still working", 5_000_000_000),
        FoldStep::Progress(ProgressStep::Record)
    );
    assert_eq!(runner.progress().summary, "still working");
    assert_eq!(runner.progress().log_seq, 2);
    runner.on_progress(Recorded::Done, 5_000_000_000);
    assert_eq!(
        say(&mut runner, "on", 9_999_999_999),
        FoldStep::Progress(ProgressStep::Nothing)
    );
    runner.on_progress(Recorded::Failed, 50_000_000_000);
    assert_eq!(runner.last_progress, 5_000_000_000);
}

#[test]
fn every_so_many_tool_calls_count_as_progress() {
    let mut runner = streaming();
    let call = WorkerEvent::ToolCall { name: "grep".to_owned(), input_summary: "x".to_owned() };
    for n in 1..=50 {
        let step = runner.fold(&call, 0, INTERVAL);
        let due = n % 25 == 0;
        assert_eq!(
            step,
            FoldStep::Progress(if due { ProgressStep::Record } else { ProgressStep::Nothing })
        );
    }
    assert_eq!(runner.last_summary, "grep: x");
    assert_eq!(runner.log_seq, 50);
    let result = WorkerEvent::ToolResult { name: "grep".to_owned(), ok: false };
    runner.fold(&result, 0, INTERVAL);
    assert_eq!(runner.last_summary, "grep → err");
}

#[test]
fn log_lines_are_flushed_when_enough_are_kept() {
    let mut runner = streaming();
    say(&mut runner, "hi", 0);
    for _ in 0..32 {
        runner.log("assistant".to_owned(), "{}".to_owned(), 7);
    }
    assert_eq!(say(&mut runner, "hi", 0), FoldStep::Progress(ProgressStep::Flush));
    let lines = runner.take_log();
    assert_eq!(lines.len(), 32);
    assert_eq!(lines[0].attempt_id, Some(3));
    assert_eq!(lines[0].at, 7);
    assert!(runner.take_log().is_empty());
    runner.on_flushed(Some(90));
    assert_eq!(runner.log_seq, 90);
    runner.on_flushed(Some(4));
    assert_eq!(runner.log_seq, 90);
}

#[test]
fn usage_adds_up_and_the_budget_stops_the_attempt() {
    let mut runner = streaming();
    let event = WorkerEvent::UsageReported { delta: tokens(30_000) };
    assert_eq!(runner.fold(&event, 0, INTERVAL), FoldStep::Price);
    assert_eq!(runner.fold(&event, 0, INTERVAL), FoldStep::Price);
    assert_eq!(runner.usage.input_tokens, 60_000);
    assert_eq!(runner.usage.cost_usd.unwrap().text(), "0.02");
    let usage = runner.usage;
    assert_eq!(runner.on_priced(usage, None), UsageStep::RecordUsage);
    say(&mut runner, "busy", 0);
    let after =
        runner.on_usage_recorded(Some(UsageRecorded { budget_exhausted: false }), 0, INTERVAL);
    assert!(!after.cancel);
    assert_eq!(after.progress, ProgressStep::Record);
    let excess = BudgetExcess {
        dimension: "tokens".to_owned(),
        limit: "9".to_owned(),
        actual: "59991".to_owned(),
    };
    assert_eq!(runner.on_priced(usage, Some(excess)), UsageStep::Cancel);
    assert_eq!(
        runner.settle(),
        Settled::Result(AttemptResult::Failed {
            class: FailureClass::Budget,
            message: "task budget exhausted: tokens limit 9 exceeded by 59991".to_owned(),
        })
    );
}

#[test]
fn a_spent_run_budget_stops_the_attempt() {
    let mut runner = streaming();
    let after =
        runner.on_usage_recorded(Some(UsageRecorded { budget_exhausted: true }), 0, INTERVAL);
    assert!(after.cancel);
    assert_eq!(
        runner.stop,
        Some((FailureClass::Budget, "run budget exhausted".to_owned()))
    );
}

#[test]
fn usages_out_of_range_change_nothing() {
    let mut runner = streaming();
    let huge = Amount { mantissa: 79_228_162_514_264_337_593_543_950_335, scale: 0 };
    let mut delta = tokens(1);
    delta.cost_usd = Some(huge);
    let event = WorkerEvent::UsageReported { delta };
    assert_eq!(runner.fold(&event, 0, INTERVAL), FoldStep::Price);
    assert_eq!(runner.fold(&event, 0, INTERVAL), FoldStep::OutOfRange);
    assert_eq!(runner.usage.input_tokens, 1);
    assert_eq!(runner.log_seq, 1);
}

#[test]
fn a_question_pauses_the_attempt() {
    let mut runner = streaming();
    let labels = vec!["yes".to_owned(), "no".to_owned()];
    let timeout = Span::from_secs(600);
    let ask = runner.question(8, "go?".to_owned(), &labels, timeout).unwrap();
    assert_eq!(ask.task_id, Some(2));
    assert!(ask.options[0].recommended && !ask.options[1].recommended);
    assert_eq!(ask.policy, QuestionPolicy::DefaultAfter { timeout });
    assert_eq!(ask.default.unwrap().selected, vec!["yes".to_owned()]);
    runner.on_asked(8);
    assert_eq!(runner.phase, Phase::AwaitingInput);
    assert!(runner.question(9, "again?".to_owned(), &labels, timeout).is_none());
    assert_eq!(say(&mut runner, "hm", 99_000_000_000), FoldStep::Progress(ProgressStep::Nothing));
    runner.on_answer(9, &answer(&["no"], None), Recorded::Done);
    assert_eq!(runner.phase, Phase::AwaitingInput);
    assert!(runner.must_wait());
    runner.on_answer(8, &answer(&["no"], None), Recorded::Done);
    assert_eq!(runner.phase, Phase::Streaming);
    assert_eq!(runner.last_summary, "no");
    assert!(!runner.must_wait());
}

#[test]
fn modes_decide_how_long_a_question_waits() {
    let timeout = Span::from_secs(600);
    let interactive = TaskRunner::new(attempt(RunMode::Interactive), 0);
    let ask = interactive.question(8, "go?".to_owned(), &vec!["a".to_owned()], timeout).unwrap();
    assert_eq!(ask.policy, QuestionPolicy::Block);
    assert!(ask.default.is_none());
    let kohral = TaskRunner::new(
        attempt(RunMode::Kohral {
            turn_id: "t".to_owned(),
            session_key: "s".to_owned(),
            session_id: "i".to_owned(),
        }),
        0,
    );
    let ask = kohral.question(8, "go?".to_owned(), &vec![], timeout).unwrap();
    assert_eq!(ask.policy, QuestionPolicy::immediate_default());
    assert!(ask.default.is_none());
}

#[test]
fn an_open_question_fails_the_attempt_in_the_end() {
    let mut runner = streaming();
    runner.on_asked(8);
    runner.on_wait_over();
    assert_eq!(
        runner.settle(),
        Settled::Result(AttemptResult::Failed {
            class: FailureClass::Transient,
            message: "unanswered_input".to_owned(),
        })
    );
}

#[test]
fn a_stop_goes_before_an_unanswered_question() {
    let mut runner = streaming();
    runner.on_asked(8);
    runner.on_stop(FailureClass::Permanent, "stopped".to_owned());
    assert!(!runner.must_wait());
    runner.on_wait_over();
    assert_eq!(runner.settle(), failed(FailureClass::Permanent, "stopped"));
    let mut runner = streaming();
    runner.on_asked(8);
    runner.on_cancelled();
    runner.on_wait_over();
    assert_eq!(runner.settle(), failed(FailureClass::Cancelled, "run cancelled"));
}

fn failed(class: FailureClass, message: &str) -> Settled {
    Settled::Result(AttemptResult::Failed { class, message: message.to_owned() })
}

#[test]
fn a_stop_goes_before_cancellation_before_the_timeout() {
    let mut runner = streaming();
    runner.on_terminal(TerminalEvent::Finished {
        text: "done".to_owned(),
        structured: None,
        usage: tokens(0),
    });
    runner.on_deadline();
    runner.on_cancelled();
    runner.on_stop(FailureClass::Transient, "runtime_shutdown".to_owned());
    assert_eq!(runner.settle(), failed(FailureClass::Transient, "runtime_shutdown"));
    assert_eq!(runner.settle(), failed(FailureClass::Cancelled, "run cancelled"));
    runner.cancelled = false;
    assert_eq!(runner.settle(), failed(FailureClass::Transient, ATTEMPT_TIMEOUT));
    runner.timed_out = false;
    assert!(matches!(runner.settle(), Settled::Validate { .. }));
    assert_eq!(
        runner.settle(),
        failed(FailureClass::Transient, "worker stream ended without a terminal event")
    );
}

#[test]
fn the_workers_own_total_counts_unless_it_is_nothing() {
    let mut runner = streaming();
    runner.fold(&WorkerEvent::UsageReported { delta: tokens(5) }, 0, INTERVAL);
    let nothing = WorkerUsage { cost_usd: None, ..tokens(0) };
    runner.on_terminal(TerminalEvent::Failed {
        class: FailureClass::Permanent,
        message: "boom".to_owned(),
        usage: nothing,
    });
    assert_eq!(runner.settle(), failed(FailureClass::Permanent, "boom"));
    assert_eq!(runner.usage.input_tokens, 5);
    runner.on_terminal(TerminalEvent::Failed {
        class: FailureClass::Permanent,
        message: "boom".to_owned(),
        usage: tokens(7),
    });
    runner.settle();
    assert_eq!(runner.usage.input_tokens, 7);
}

#[test]
fn outputs_are_held_to_their_schema() {
    let mut runner = streaming();
    assert_eq!(
        runner.validate(" all good ", Some("ignored".to_owned()), None),
        AttemptResult::Succeeded
    );
    assert_eq!(runner.summary, "all good");
    runner.attempt.spec.output_schema = Some("{}".to_owned());
    assert_eq!(
        runner.validate("x", Some("missing field".to_owned()), None),
        AttemptResult::Failed {
            class: FailureClass::Permanent,
            message: "output schema violation: missing field".to_owned(),
        }
    );
    assert!(runner.validate("x", None, None).is_success());
}

#[test]
fn one_command_ends_the_attempt() {
    let mut runner = streaming();
    runner.validate("ok", None, None);
    runner.on_elapsed(1_500);
    runner.on_elapsed(900);
    let command = runner.terminal_command(&AttemptResult::Succeeded);
    assert!(matches!(
        command,
        TerminalCommand::Succeed(cmd) if cmd.usage.wall_ms == 1_500 && cmd.summary == "ok"
    ));
    let result =
        AttemptResult::Failed { class: FailureClass::Cancelled, message: "m".to_owned() };
    assert_eq!(result.failure_class(), Some(FailureClass::Cancelled));
    assert!(matches!(
        runner.terminal_command(&result),
        TerminalCommand::Fail(cmd) if cmd.class == FailureClass::Cancelled
    ));
    let (phase, outcome) = runner.finish(result, 1_500);
    assert_eq!(phase, Phase::Failed);
    assert_eq!(outcome.wall_ms, 1_500);
    assert_eq!(outcome.usage, Usage { wall_ms: 1_500, ..Usage::zero() });
    let spawn = TaskRunner::spawn_failed(FailureClass::Permanent, "no binary");
    assert_eq!(
        spawn,
        AttemptResult::Failed {
            class: FailureClass::Permanent,
            message: "worker spawn failed: no binary".to_owned(),
        }
    );
}
