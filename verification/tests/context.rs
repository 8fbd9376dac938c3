use kevin_orchestrator::domain::{
    Answer, ArtifactKind, Budget, Complexity, RepoKind, RunMode, Span, Usage,
};
use kevin_orchestrator::money::Amount;
use kevin_orchestrator::roles::context::{
    ArtifactInput, BudgetHints, FeedbackSource, IntegrationFacts, Plan, PlanFeedback, PlanRules,
    PlanTask, PriorAnswer, RepoFacts, RoleContext, RunOutcome, StaticSystemContext, SystemContextSection,
    SystemContextProvider, TaskOutcome, Understanding, VarValue,
};
use kevin_orchestrator::roles::memory_block::MemoryBlock;

fn strings(items: &[&str]) -> Vec<String> {
    items.iter().map(|s| (*s).to_owned()).collect()
}

fn rules() -> PlanRules {
    PlanRules {
        max_proposed_questions: 7,
        confidence_threshold: "0.70".to_owned(),
        task_kinds: strings(&["implement", "write"]),
    }
}

fn value(ctx: &RoleContext, name: &str) -> VarValue {
    let vars = ctx.vars(&rules());
    let mut found = None;
    for var in vars {
        if var.name == name {
            found = Some(var.value);
        }
    }
    found.unwrap()
}

fn text(s: &str) -> VarValue {
    VarValue::Text(s.to_owned())
}

fn some(s: &str) -> VarValue {
    VarValue::Optional(Some(s.to_owned()))
}

fn lines(items: &[&str]) -> VarValue {
    VarValue::Lines(strings(items))
}

#[test]
fn an_empty_context_has_all_variables() {
    let ctx = RoleContext::new("  goal \n".to_owned());
    let names: Vec<&str> = ctx.vars(&rules()).iter().map(|v| v.name).collect();
    assert_eq!(
        names,
        vec![
            "goal",
            "repo",
            "run_mode",
            "run_mode_note",
            "assumption_prefix",
            "max_questions_per_run",
            "max_tasks_per_run",
            "max_proposed_questions",
            "question_confidence_threshold",
            "task_kinds",
            "integration_mode",
            "base_branch",
            "memory",
            "prior_answers",
            "acceptance_criteria",
            "budget",
            "plan_feedback",
            "understanding",
            "plan",
            "tasks",
            "artifacts",
            "integration",
            "run_outcome",
            "system_context"
        ]
    );
    assert_eq!(value(&ctx, "goal"), text("goal"));
    assert_eq!(value(&ctx, "run_mode"), text("interactive"));
    assert_eq!(value(&ctx, "task_kinds"), text("implement, write"));
    assert_eq!(value(&ctx, "memory"), VarValue::Optional(None));
    assert_eq!(value(&ctx, "prior_answers"), lines(&[]));
    assert_eq!(value(&ctx, "budget"), some(""));
    assert_eq!(value(&ctx, "question_confidence_threshold"), text("0.70"));
    assert_eq!(value(&ctx, "max_proposed_questions"), text("7"));
}

#[test]
fn repositories_are_described() {
    let mut repo = RepoFacts::new("kevin", "/src/kevin");
    repo.vcs = RepoKind::Jj;
    repo.base_branch = Some("main".to_owned());
    repo.languages = strings(&["rust", "sql"]);
    repo.top_level = strings(&["crates", "docs"]);
    repo.checks = strings(&["fmt", "test"]);
    repo.notes = strings(&["monorepo"]);
    let ctx = RoleContext::new("g".to_owned()).with_repo(repo);
    assert_eq!(
        value(&ctx, "repo"),
        text(
            "- name: kevin\n- root: /src/kevin\n- vcs: jj\n- base branch: main\n\
             - languages: rust, sql\n- top level: crates, docs\n\
             - declared checks: fmt && test\n- monorepo"
        )
    );
}

#[test]
fn answers_read_in_one_line() {
    let answer = |selected: &[&str], free: Option<&str>| Answer {
        selected: strings(selected),
        free_text: free.map(|s| s.to_owned()),
        answered_by: "ann".to_owned(),
    };
    let both = PriorAnswer::new("which?".to_owned(), &answer(&["a", "b"], Some("or c")));
    assert_eq!(both.answer, "a, b — or c");
    assert_eq!(PriorAnswer::new("q".to_owned(), &answer(&[], Some("c"))).answer, "c");
    let ctx = RoleContext::new("g".to_owned()).with_prior_answers(vec![both]);
    assert_eq!(
        value(&ctx, "prior_answers"),
        lines(&["- which? → a, b — or c (answered by ann)"])
    );
}

#[test]
fn budgets_are_hinted() {
    let budget = Budget {
        max_usd: Some(Amount { mantissa: 500, scale: 2 }),
        max_tokens: Some(9),
        max_wall: Some(Span::from_secs(90)),
        max_attempts: 3,
        max_parallel: 2,
    };
    let hints = BudgetHints::from_budget(&budget).with_spent_usd(Amount { mantissa: 5, scale: 1 });
    let ctx = RoleContext::new("g".to_owned()).with_budget(hints);
    assert_eq!(
        value(&ctx, "budget"),
        some(
            "- budget: 5.00 USD (spent so far: 0.5)\n- token budget: 9\n\
             - wall-clock budget: 1m 30s\n- at most 2 task attempts run at once"
        )
    );
    let spent = BudgetHints::default().with_spent_usd(Amount { mantissa: 5, scale: 1 });
    let ctx = RoleContext::new("g".to_owned()).with_budget(spent);
    assert_eq!(value(&ctx, "budget"), some("- spent so far: 0.5 USD"));
}

#[test]
fn rejections_are_listed_by_round() {
    let ctx = RoleContext::new("g".to_owned()).with_plan_feedback(vec![
        PlanFeedback::rejected(1, "smaller\nsteps".to_owned()),
        PlanFeedback::validation(2, strings(&["cycle", "no tasks"])),
    ]);
    assert_eq!(
        value(&ctx, "plan_feedback"),
        lines(&[
            "Revision 1 — rejected by the human:",
            "- smaller",
            "steps",
            "",
            "Revision 2 — rejected by the validator:",
            "- cycle",
            "- no tasks"
        ])
    );
    assert_eq!(FeedbackSource::Human.as_str(), "human");
}

#[test]
fn understandings_and_plans_read_as_prose() {
    let understanding = Understanding {
        objective: "o".to_owned(),
        complexity: Complexity::Medium,
        success_criteria: strings(&["c"]),
        assumptions: vec![],
        risks: strings(&["r1", "r2"]),
        suggested_task_kinds: strings(&["write"]),
        context_refs: strings(&["a.md", "b.md"]),
        proposed_questions: vec![],
    };
    let plan = Plan {
        rationale: "why".to_owned(),
        tasks: vec![
            PlanTask {
                id: "t1".to_owned(),
                kind: "write".to_owned(),
                title: "docs".to_owned(),
                acceptance_criteria: strings(&["spell checked"]),
                depends_on: vec![],
            },
            PlanTask {
                id: "t2".to_owned(),
                kind: "implement".to_owned(),
                title: "code".to_owned(),
                acceptance_criteria: vec![],
                depends_on: strings(&["t1"]),
            },
        ],
    };
    let mut ctx = RoleContext::new("g".to_owned());
    ctx.understanding = Some(understanding);
    ctx.plan = Some(plan);
    assert_eq!(
        value(&ctx, "understanding"),
        some(
            "Objective: o\nComplexity: medium\nSuccess criteria:\n- c\nRisks:\n- r1\n- r2\n\
             Suggested task kinds: write\nContext refs: a.md, b.md"
        )
    );
    assert_eq!(
        value(&ctx, "plan"),
        some(
            "Rationale: why\n- t1 [write] docs — depends on: nothing\n\
             \u{20} - acceptance: spell checked\n- t2 [implement] code — depends on: t1"
        )
    );
}

#[test]
fn outcomes_and_artifacts_are_listed() {
    let ctx = RoleContext::new("g".to_owned())
        .with_tasks(vec![TaskOutcome {
            id: "t1".to_owned(),
            title: "docs".to_owned(),
            kind: "write".to_owned(),
            status: "succeeded".to_owned(),
            branch: None,
            summary: "done".to_owned(),
        }])
        .with_artifacts(vec![ArtifactInput {
            id: "a1".to_owned(),
            kind: ArtifactKind::PrUrl,
            uri: "http://pr".to_owned(),
            description: "the PR".to_owned(),
        }])
        .with_run_outcome(RunOutcome {
            status: "failed".to_owned(),
            duration: Span::from_secs(3600),
            usage: Usage {
                input_tokens: 3,
                output_tokens: 4,
                cost_usd: Some(Amount { mantissa: 125, scale: 2 }),
                ..Usage::zero()
            },
            failure_reason: Some("budget".to_owned()),
        });
    assert_eq!(
        value(&ctx, "tasks"),
        lines(&["- t1 [write] docs — succeeded (no branch)\n  done"])
    );
    assert_eq!(value(&ctx, "artifacts"), lines(&["- a1 [pr_url] http://pr — the PR"]));
    assert_eq!(
        value(&ctx, "run_outcome"),
        some(
            "- status: failed\n- duration: 1h\n- tokens: 3 in / 4 out\n- cost: 1.25 USD\n\
             - failure reason: budget"
        )
    );
}

#[test]
fn integrations_are_described() {
    let mut ctx = RoleContext::new("g".to_owned());
    ctx.integration = IntegrationFacts {
        mode: "pr".to_owned(),
        base_branch: "main".to_owned(),
        pr_per_task: true,
        checks: vec![],
        conflicts: strings(&["a.rs"]),
    };
    assert_eq!(
        value(&ctx, "integration"),
        some(
            "- mode: pr\n- base branch: main\n- pull requests: one per succeeded task\n\
             - declared checks: none\n- known conflict: a.rs"
        )
    );
    assert_eq!(value(&ctx, "integration_mode"), text("pr"));
    assert_eq!(value(&ctx, "base_branch"), text("main"));
}

#[test]
fn platforms_brief_every_prompt() {
    let provider = StaticSystemContext::new(
        "kohral",
        vec![
            ("SOUL.md".to_owned(), "  Be terse.\n".to_owned()),
            ("EMPTY.md".to_owned(), "  ".to_owned()),
            ("AGENTS.md".to_owned(), "Use tabs.".to_owned()),
        ],
    );
    assert_eq!(provider.sections().len(), 2);
    let ctx = RoleContext::new("g".to_owned())
        .with_run_mode(RunMode::Headless)
        .with_memory(MemoryBlock::new("- item", 100))
        .with_system_context(&provider);
    assert_eq!(
        value(&ctx, "system_context"),
        lines(&["## SOUL.md", "", "Be terse.", "", "## AGENTS.md", "", "Use tabs."])
    );
    assert_eq!(value(&ctx, "run_mode"), text("headless"));
    assert_eq!(
        value(&ctx, "memory"),
        some("<kevin-memory>\n- item\n</kevin-memory>")
    );
}

#[test]
fn unusable_sections_are_skipped() {
    let section = |title: &str, body: &str| SystemContextSection {
        title: title.to_owned(),
        body: body.to_owned(),
    };
    let provider = StaticSystemContext {
        name: "raw",
        sections: vec![
            section("A", "[BLOCKED: injection]"),
            section("B", "use tabs"),
            section("C", " \n"),
        ],
    };
    assert_eq!(provider.name(), "raw");
    let ctx = RoleContext::new("g".to_owned()).with_system_context(&provider);
    assert_eq!(ctx.system_context, vec![section("B", "use tabs")]);
}
