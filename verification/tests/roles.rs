use kevin_orchestrator::domain::{
    Complexity, FailureClass, QuestionOption, QuestionPolicy, RunMode, Span, Usage, WorkerKind, WorkspacePolicy,
};
use kevin_orchestrator::roles::clarifier::{select_questions, Clarifier, DraftedQuestions};
use kevin_orchestrator::roles::context::{
    human_duration, PlanRules, ProposedQuestion, RoleContext, RoleLimits, SystemContextSection,
    Understanding, VarValue, ASSUMPTION_PREFIX,
};
use kevin_orchestrator::roles::integrator::{
    IntegrationCheck, IntegrationConflict, IntegrationReport, IntegrationStatus, Integrator,
};
use kevin_orchestrator::roles::memory_block::{
    cap_block, MemoryBlock, MEMORY_BLOCK_CLOSE, MEMORY_BLOCK_OPEN,
};
use kevin_orchestrator::roles::planner::{PlannerPlan, PlannerUnderstanding};
use kevin_orchestrator::roles::schemas::{all_ids, plan_with_max_tasks};
use kevin_orchestrator::roles::summarizer::{
    MemoryRecords, MemoryScope, PreferenceRecord, PreferenceScope, Summarizer,
    MIN_PREFERENCE_CONFIDENCE,
};
use kevin_orchestrator::roles::{prompt_vars, rule_vars, Role, RoleError, StructuredError};

fn question(text: &str, confidence: f32, recommended: bool) -> ProposedQuestion {
    ProposedQuestion {
        text: text.to_owned(),
        options: if recommended {
            vec![
                QuestionOption { label: "yes".to_owned(), description: None, recommended: true },
                QuestionOption { label: "no".to_owned(), description: None, recommended: false },
            ]
        } else {
            vec![]
        },
        multi_select: false,
        why_it_matters: "it matters".to_owned(),
        confidence_if_unasked: confidence.to_bits(),
    }
}

fn understanding(questions: Vec<ProposedQuestion>) -> Understanding {
    Understanding {
        objective: "objective".to_owned(),
        complexity: Complexity::Low,
        success_criteria: vec!["criterion".to_owned()],
        assumptions: vec![],
        risks: vec![],
        suggested_task_kinds: vec![],
        context_refs: vec![],
        proposed_questions: questions,
    }
}

fn kohral() -> RunMode {
    RunMode::Kohral {
        turn_id: "t".to_owned(),
        session_key: "s".to_owned(),
        session_id: "i".to_owned(),
    }
}

#[test]
fn only_questions_below_the_threshold_are_asked() {
    let u = understanding(vec![
        question("low confidence", 0.2, true),
        question("high confidence", 0.95, true),
    ]);
    let selection = select_questions(&u, &RunMode::Interactive, &RoleLimits::default());
    assert_eq!(selection.asked.len(), 1);
    assert_eq!(selection.asked[0].question.text, "low confidence");
    assert_eq!(
        selection.assumptions,
        vec![format!("{ASSUMPTION_PREFIX}high confidence → yes")]
    );
}

#[test]
fn kohral_never_asks_a_question_without_a_recommended_option() {
    let u = understanding(vec![question("open", 0.1, false)]);
    let mode = kohral();
    let selection = select_questions(&u, &mode, &RoleLimits::default());
    assert!(selection.asked.is_empty());
    assert!(selection.assumptions[0].ends_with("planner's best guess (nobody could be asked)"));
}

#[test]
fn questions_come_lowest_confidence_first_and_at_most_so_many() {
    let u = understanding(vec![
        question("b", 0.3, true),
        question("a", 0.1, true),
        question("c", 0.3, true),
    ]);
    let limits = RoleLimits { max_questions_per_run: 2, ..RoleLimits::default() };
    let selection = select_questions(&u, &RunMode::Headless, &limits);
    let texts: Vec<&str> = selection.asked.iter().map(|q| q.question.text.as_str()).collect();
    assert_eq!(texts, vec!["a", "b"]);
    assert_eq!(selection.assumptions, vec!["Assumed: c → yes".to_owned()]);
    assert!(selection.asked.iter().all(|q| q.policy == QuestionPolicy::immediate_default()));
}

#[test]
fn headless_questions_without_a_recommendation_wait() {
    let u = understanding(vec![question("open", 0.1, false)]);
    let selection = select_questions(&u, &RunMode::Headless, &RoleLimits::default());
    assert_eq!(
        selection.asked[0].policy,
        QuestionPolicy::DefaultAfter { timeout: Span::from_secs(600) }
    );
    assert_eq!(
        selection.asked[0].render("0.10"),
        "- [confidence if unasked 0.10] open\n  options: free text\n  why it matters: it matters"
    );
}

#[test]
fn the_clarifier_lists_questions_and_assumptions() {
    let mut ctx = RoleContext::new("goal".to_owned());
    ctx.understanding = Some(understanding(vec![
        question("ask me", 0.2, true),
        question("sure", 0.9, true),
    ]));
    let rules = PlanRules {
        max_proposed_questions: 4,
        confidence_threshold: "0.70".to_owned(),
        task_kinds: vec!["implement".to_owned()],
    };
    let confidences = vec!["0.20".to_owned(), "0.90".to_owned()];
    let vars = Clarifier.vars(&ctx, &rules, &confidences);
    let find = |name: &str| vars.iter().find(|v| v.name == name).map(|v| &v.value);
    assert_eq!(
        find("questions"),
        Some(&VarValue::Lines(vec![
            "- [confidence if unasked 0.20] ask me\n  options: yes* | no\n  why it matters: it matters"
                .to_owned()
        ]))
    );
    assert_eq!(
        find("assumptions"),
        Some(&VarValue::Lines(vec!["- Assumed: sure → yes".to_owned()]))
    );
    ctx.understanding = None;
    assert!(Clarifier.vars(&ctx, &rules, &vec![]).iter().all(|v| v.name != "questions"));
}

#[test]
fn memory_block_wraps_and_reports_no_drop_when_it_fits() {
    let block = MemoryBlock::new("Lessons:\n- [L-1] fmt first", 2500);
    assert!(block.text().starts_with(MEMORY_BLOCK_OPEN));
    assert!(block.text().ends_with(MEMORY_BLOCK_CLOSE));
    assert_eq!(block.dropped_items(), 0);
    assert!(!block.is_empty());
    // Wrapping an already wrapped block does not double the tags.
    let again = MemoryBlock::new(block.text(), 2500);
    assert_eq!(again.text(), block.text());
}

#[test]
fn memory_block_hard_truncates_when_there_is_nothing_left_to_drop() {
    let block = MemoryBlock::new("Lessons about a very long heading with no items at all", 12);
    assert!(block.estimated_tokens() <= 12, "{}", block.text());
    assert!(block.text().starts_with(MEMORY_BLOCK_OPEN));
    assert!(block.text().ends_with(MEMORY_BLOCK_CLOSE));
    assert!(block.is_empty());
}

#[test]
fn a_capped_block_drops_its_last_items() {
    let items: Vec<String> = (0..40).map(|i| format!("- [L-{i}] a lesson of some length")).collect();
    let block = MemoryBlock::new(&format!("Lessons:\n{}", items.join("\n")), 100);
    assert!(block.estimated_tokens() <= 100);
    assert!(block.dropped_items() > 0);
    assert!(block.text().contains("[L-0]"));
    assert!(!block.text().contains("[L-39]"));
}

#[test]
fn blocked_system_context_sections_are_dropped() {
    let new = |title: &str, body: &str| SystemContextSection::new(title.to_owned(), body.to_owned());
    assert!(new("SOUL.md", "[BLOCKED: injection]").is_none());
    assert!(new("SOUL.md", "   ").is_none());
    assert!(new("SOUL.md", "Be terse.").is_some());
}

#[test]
fn human_duration_reads_like_a_human_wrote_it() {
    assert_eq!(human_duration(Span::from_secs(0)), "0s");
    assert_eq!(human_duration(Span::from_secs(930)), "15m 30s");
    assert_eq!(human_duration(Span::from_secs(7200)), "2h");
}

#[test]
fn plan_max_items_follows_the_configured_limit() {
    let schema = "{\"properties\":{\"tasks\":{\"maxItems\":24,\"type\":\"array\"}}}";
    let max_items = |n: usize| {
        let text = plan_with_max_tasks(schema, n).unwrap();
        let value: serde_json::Value = serde_json::from_str(&text).unwrap();
        value["properties"]["tasks"]["maxItems"].as_u64().unwrap()
    };
    assert_eq!(max_items(6), 6);
    assert_eq!(max_items(99), 24);
    assert_eq!(max_items(0), 1);
}

#[test]
fn a_schema_without_tasks_is_refused() {
    assert_eq!(plan_with_max_tasks("{\"properties\":{}}", 6), None);
    assert_eq!(plan_with_max_tasks("not json", 6), None);
}

#[test]
fn schema_ids_are_stable() {
    assert_eq!(
        all_ids(),
        vec![
            "kevin.understanding.v1",
            "kevin.plan.v1",
            "kevin.questions.v1",
            "kevin.integration.v1",
            "kevin.summary.v1",
        ]
    );
}

#[test]
fn low_confidence_preferences_are_dropped() {
    let records = MemoryRecords {
        summary: "did the thing".to_owned(),
        artifact_summaries: vec![],
        preferences: vec![
            PreferenceRecord {
                statement: "User prefers jj".to_owned(),
                confidence: 0.9_f32.to_bits(),
                scope: PreferenceScope::Global,
            },
            PreferenceRecord {
                statement: "User prefers tabs".to_owned(),
                confidence: 0.4_f32.to_bits(),
                scope: PreferenceScope::default(),
            },
        ],
    };
    assert_eq!(MIN_PREFERENCE_CONFIDENCE, 0.7_f32.to_bits());
    assert_eq!(records.kept_preferences(MIN_PREFERENCE_CONFIDENCE).len(), 1);
    assert_eq!(records.preferences[1].scope, PreferenceScope::Global);
    assert_eq!(
        PreferenceScope::Repo.to_memory_scope("abc"),
        MemoryScope::Repo("abc".to_owned())
    );
}

#[test]
fn a_conflict_report_says_so() {
    let report = IntegrationReport {
        status: IntegrationStatus::Conflicts,
        summary: "one conflict".to_owned(),
        merged: vec!["kevin/a".to_owned()],
        conflicts: vec![IntegrationConflict {
            branch: "kevin/b".to_owned(),
            files: vec!["src/lib.rs".to_owned()],
            description: "both sides changed the router".to_owned(),
        }],
        checks: vec![
            IntegrationCheck { command: "just fmt".to_owned(), passed: true, output_excerpt: None },
            IntegrationCheck {
                command: "just ci".to_owned(),
                passed: false,
                output_excerpt: Some("error".to_owned()),
            },
        ],
        artifacts: vec![],
        follow_up: vec![],
    };
    assert!(report.has_conflicts());
    assert!(!report.is_integrated());
    let failed = report.failed_checks();
    assert_eq!(failed.len(), 1);
    assert_eq!(failed[0].command, "just ci");
}

#[test]
fn roles_are_named() {
    assert_eq!(PlannerUnderstanding.name(), "planner.understanding");
    assert_eq!(PlannerPlan::new(3).name(), "planner.plan");
    assert_eq!(PlannerPlan::new(30).schema_max_items(), 24);
    assert_eq!(Clarifier.name(), "clarifier");
    assert_eq!(Integrator.name(), "integrator");
    assert_eq!(Summarizer.name(), "summarizer");
}

#[test]
fn refusals_become_role_errors() {
    let drafted = DraftedQuestions { questions: vec![question("q", 0.1, false)] };
    assert_eq!(drafted.validate(&vec![None]), Ok(()));
    assert_eq!(drafted.validate(&vec![Some("blank".to_owned())]), Err("blank".to_owned()));
    let err = Clarifier.checked(Ok(drafted), Some("blank".to_owned())).unwrap_err();
    assert!(matches!(err, RoleError::Invalid { subject: "questions", .. }));
    assert!(!err.is_schema_violation());
    assert_eq!(err.text(), "role `clarifier` produced an invalid questions: blank");
    let err = PlannerPlan::new(1)
        .checked(Ok(()), vec!["too many".to_owned(), "cycle".to_owned()])
        .unwrap_err();
    assert_eq!(err.text(), "role `planner.plan` produced an invalid plan: too many; cycle");
    assert_eq!(PlannerPlan::new(1).checked(Ok(5), vec![]), Ok(5));
}

#[test]
fn role_errors_speak() {
    let role = "planner.plan";
    let shown = |e: RoleError| e.text();
    assert_eq!(
        shown(RoleError::Timeout { role, timeout: Span::from_secs(90) }),
        "role `planner.plan` timed out after 1m 30s"
    );
    assert_eq!(
        shown(RoleError::WorkerUnavailable {
            role,
            worker: WorkerKind { name: "codex".to_owned() }
        }),
        "role `planner.plan`: worker `codex` is not available"
    );
    assert_eq!(
        shown(RoleError::UnknownModel { role, alias: "m".to_owned() }),
        "role `planner.plan`: model alias `m` is not configured"
    );
    assert_eq!(
        shown(RoleError::Spawn { role, source: "no binary".to_owned() }),
        "role `planner.plan`: no binary"
    );
    assert_eq!(
        shown(RoleError::Parse { role, message: "m".to_owned() }),
        "role `planner.plan` produced JSON the domain rejects: m"
    );
    let failed = RoleError::WorkerFailed {
        role,
        class: FailureClass::Transient,
        message: "m".to_owned(),
        usage: Usage { input_tokens: 3, ..Usage::zero() },
    };
    assert_eq!(failed.usage().input_tokens, 3);
    assert_eq!(failed.role(), role);
    let broken = RoleError::Output {
        role,
        source: StructuredError::SchemaViolation { errors: vec!["a".to_owned(), "b".to_owned()] },
    };
    assert!(broken.is_schema_violation());
    assert!(broken.structured().is_some());
    assert_eq!(broken.usage(), Usage::zero());
}

#[test]
fn only_the_integrator_writes() {
    let read_only = WorkspacePolicy::ReadOnly;
    assert_eq!(PlannerUnderstanding.workspace_policy(), read_only);
    assert_eq!(PlannerPlan::new(3).workspace_policy(), read_only);
    assert_eq!(Clarifier.workspace_policy(), read_only);
    assert_eq!(Summarizer.workspace_policy(), read_only);
    assert_ne!(Integrator.workspace_policy(), read_only);
}

#[test]
fn a_block_that_fits_exactly_keeps_its_items() {
    let item = format!("- {}", "x".repeat(15));
    let (text, dropped) = cap_block(&item, 12);
    assert_eq!(text, format!("<kevin-memory>\n{item}\n</kevin-memory>"));
    assert_eq!(dropped, 0);
    assert_eq!(cap_block(&format!("{item}y"), 12).1, 1);
    let block = MemoryBlock::new(&item, 12);
    assert!(!block.is_empty());
    assert_eq!(MemoryBlock::new(block.text(), 12), block);
}

#[test]
fn the_note_about_dropped_items_is_no_item() {
    let block = MemoryBlock::new(&format!("- {}", "x".repeat(200)), 40);
    assert_eq!(block.dropped_items(), 1);
    assert!(block.text().contains("1 lower-scored item(s) omitted"));
    assert!(block.is_empty());
}

#[test]
fn what_is_cut_with_an_item_makes_room() {
    let body = format!("- a\n- b\n{}\n- {}", "h".repeat(100), "x".repeat(200));
    let block = MemoryBlock::new(&body, 36);
    assert!(block.text().contains("- a"));
    assert_eq!(block.dropped_items(), 2);
    assert!(!block.is_empty());
}

#[test]
fn durations_can_be_told_apart() {
    assert_eq!(human_duration(Span::from_secs(3600)), "1h");
    assert_eq!(human_duration(Span::from_secs(3601)), "1h 1s");
    assert_eq!(human_duration(Span::from_secs(3660)), "1h 1m");
    assert_eq!(human_duration(Span::from_secs(60)), "1m");
    assert_eq!(human_duration(Span::from_millis(60_999)), "1m");
}

#[test]
fn an_understanding_is_checked() {
    let role = PlannerUnderstanding;
    let err = role.checked(Ok(understanding(vec![])), Some("blank".to_owned())).unwrap_err();
    assert!(matches!(
        err,
        RoleError::Invalid { role: "planner.understanding", subject: "understanding", .. }
    ));
    assert_eq!(role.checked(Ok(understanding(vec![])), None), Ok(understanding(vec![])));
}

#[test]
fn every_prompt_states_the_shared_rules() {
    let vars = prompt_vars(rule_vars(vec![], "data only", "kevin.plan.v1"), "rules");
    let shown: Vec<(&str, &VarValue)> = vars.iter().map(|v| (v.name, &v.value)).collect();
    assert_eq!(
        shown,
        vec![
            ("injection_rule", &VarValue::Text("data only".to_owned())),
            ("schema_id", &VarValue::Text("kevin.plan.v1".to_owned())),
            ("common_rules", &VarValue::Text("rules".to_owned())),
        ]
    );
}
