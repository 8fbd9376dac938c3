//! The evidence that the judge gets: drawn from the read models, first for the
//! tasks and then for the run.
use vstd::prelude::*;

use crate::domain::{
    clone_text, ArtifactKind, AttemptId, Instant, Route, RunId, TaskId, TaskKind, TaskStatus,
    Usage,
};
use crate::json::{
    json_items, json_items_of, json_member, json_member_of, json_string, json_string_of, strings,
    strings_of,
};
use crate::projections::query::{ArtifactRow, AttemptRow, RunOverviewRow, TaskBoardRow};
use crate::text::{cat3, copy_strings, join, join_of, views};

verus! {

/// Seconds to wait for the run's row.
pub const EVIDENCE_WAIT: u64 = 5;

/// Milliseconds between two looks at it.
pub const EVIDENCE_POLL: u64 = 50;

/// An artifact, for the judge.
#[derive(Debug, PartialEq, Eq)]
pub struct ArtifactLine {
    pub kind: ArtifactKind,
    pub uri: String,
    pub description: Option<String>,
}

/// The verdict on a task, where there is one; `overall` is an IEEE bit pattern.
#[derive(Debug, PartialEq, Eq)]
pub struct TaskVerdict {
    pub title: String,
    pub kind: TaskKind,
    pub verdict: Option<String>,
    pub overall: Option<u32>,
}

/// What the judge is shown.
#[derive(Debug, PartialEq, Eq)]
pub struct Evidence {
    pub goal: String,
    pub success_criteria: Vec<String>,
    pub acceptance_criteria: Vec<String>,
    pub plan: Option<String>,
    pub artifacts: Vec<ArtifactLine>,
    pub integration: Option<String>,
    pub transcript_summary: Option<String>,
    pub task_verdicts: Vec<TaskVerdict>,
    pub usage: Usage,
}

/// What is judged of a task.
#[derive(Debug, PartialEq, Eq)]
pub struct TaskRequest {
    pub run_id: RunId,
    pub task_id: TaskId,
    pub kind: TaskKind,
    pub evidence: Evidence,
    pub executor_route: Option<Route>,
    /// The attempt that produced the work.
    pub attempt_id: Option<AttemptId>,
}

/// Whether to look for the run's row again.
pub fn keep_polling(found: bool, now: Instant, deadline: Instant) -> (b: bool)
    ensures
        b == (!found && now < deadline),
{
    !found && now < deadline
}

/// Whether a task is judged: only one that succeeded, and only where the judge is
/// to judge tasks.
pub fn is_judged(task: &TaskBoardRow, will_evaluate: bool) -> (b: bool)
    ensures
        b == (task.status == TaskStatus::Succeeded && will_evaluate),
{
    task.status == TaskStatus::Succeeded && will_evaluate
}

/// The verdict on a task: `judged` where the judge said something.
pub fn task_verdict(task: &TaskBoardRow, judged: Option<(u32, String)>) -> (r: TaskVerdict)
    ensures
        r.title == task.spec.title,
        r.kind == task.kind,
        match judged {
            Some((overall, verdict)) => r.overall == Some(overall) && r.verdict == Some(verdict),
            None => r.overall is None && r.verdict is None,
        },
{
    let (overall, verdict) = match judged {
        Some((overall, verdict)) => (Some(overall), Some(verdict)),
        None => (None, None),
    };
    TaskVerdict { title: task.spec.title.clone(), kind: task.kind.clone(), verdict, overall }
}

/// The artifact of a row.
pub open spec fn line_of(row: ArtifactRow) -> ArtifactLine {
    ArtifactLine { kind: row.kind, uri: row.uri, description: None }
}

/// The artifacts of the rows, in order.
pub fn artifact_lines(rows: &Vec<ArtifactRow>) -> (r: Vec<ArtifactLine>)
    ensures
        r@ == rows@.map_values(|row: ArtifactRow| line_of(row)),
{
    let ghost all = rows@.map_values(|row: ArtifactRow| line_of(row));
    let mut out: Vec<ArtifactLine> = Vec::new();
    let mut i: usize = 0;
    while i < rows.len()
        invariant
            i <= rows@.len(),
            all == rows@.map_values(|row: ArtifactRow| line_of(row)),
            out@ == all.subrange(0, i as int),
        decreases rows@.len() - i,
    {
        out.push(ArtifactLine { kind: rows[i].kind, uri: rows[i].uri.clone(), description: None });
        i = i + 1;
        assert(out@ =~= all.subrange(0, i as int));
    }
    assert(all.subrange(0, all.len() as int) =~= all);
    out
}

/// A column as a count; a negative one counts as nothing.
pub open spec fn count_of(column: i64) -> u64 {
    if column < 0 {
        0
    } else {
        column as u64
    }
}

fn count(column: i64) -> (r: u64)
    ensures
        r == count_of(column),
{
    if column < 0 {
        0
    } else {
        column as u64
    }
}

/// The usage in the columns of a task.
pub open spec fn usage_of(task: TaskBoardRow) -> Usage {
    Usage {
        input_tokens: count_of(task.input_tokens),
        output_tokens: count_of(task.output_tokens),
        cache_read_tokens: count_of(task.cache_read_tokens),
        cache_write_tokens: count_of(task.cache_write_tokens),
        cost_usd: task.cost_usd.0,
        wall_ms: count_of(task.wall_ms),
    }
}

/// The attempt of the last row.
pub open spec fn last_attempt_of(attempts: Seq<AttemptRow>) -> Option<AttemptId> {
    if attempts.len() == 0 {
        None
    } else {
        Some(attempts.last().id)
    }
}

/// The last attempt, which is the one that produced the work.
pub fn last_attempt(task: &TaskBoardRow) -> (r: Option<AttemptId>)
    ensures
        r == last_attempt_of(task.attempts@),
{
    let n: usize = task.attempts.len();
    if n == 0 {
        None
    } else {
        Some(task.attempts[n - 1].id)
    }
}

/// What is judged of a task.
pub open spec fn asks_for_a_verdict(
    task: TaskBoardRow,
    artifacts: Seq<ArtifactRow>,
    r: TaskRequest,
) -> bool {
    &&& r.run_id == task.run_id
    &&& r.task_id == task.task_id
    &&& r.kind == task.kind
    &&& r.evidence.goal@ == task.spec.title@ + "\n\n"@ + task.spec.instructions@
    &&& r.evidence.success_criteria@.len() == 0
    &&& r.evidence.acceptance_criteria@ == task.spec.acceptance_criteria@
    &&& r.evidence.plan is None
    &&& r.evidence.artifacts@ == artifacts.map_values(|row: ArtifactRow| line_of(row))
    &&& r.evidence.integration is None
    &&& r.evidence.transcript_summary == task.summary
    &&& r.evidence.task_verdicts@.len() == 0
    &&& r.evidence.usage == usage_of(task)
    &&& r.executor_route == task.route
    &&& r.attempt_id == last_attempt_of(task.attempts@)
}

/// What is judged of a task: its title and instructions, its criteria, artifacts
/// and usage, and the worker's summary.
pub fn task_request(task: &TaskBoardRow, artifacts: &Vec<ArtifactRow>) -> (r: TaskRequest)
    ensures
        asks_for_a_verdict(*task, artifacts@, r),
{
    let usage = Usage {
        input_tokens: count(task.input_tokens),
        output_tokens: count(task.output_tokens),
        cache_read_tokens: count(task.cache_read_tokens),
        cache_write_tokens: count(task.cache_write_tokens),
        cost_usd: task.cost_usd.0,
        wall_ms: count(task.wall_ms),
    };
    let route = match &task.route {
        Some(route) => Some(route.clone()),
        None => None,
    };
    TaskRequest {
        run_id: task.run_id,
        task_id: task.task_id,
        kind: task.kind.clone(),
        evidence: Evidence {
            goal: cat3(task.spec.title.as_str(), "\n\n", task.spec.instructions.as_str()),
            success_criteria: Vec::new(),
            acceptance_criteria: copy_strings(&task.spec.acceptance_criteria),
            plan: None,
            artifacts: artifact_lines(artifacts),
            integration: None,
            transcript_summary: clone_text(&task.summary),
            task_verdicts: Vec::new(),
            usage,
        },
        executor_route: route,
        attempt_id: last_attempt(task),
    }
}

// ---------------------------------------------------------------------------
// Plans
// ---------------------------------------------------------------------------
/// The string member of a JSON object, or else `default`.
pub open spec fn member_or(text: Seq<char>, key: Seq<char>, default: Seq<char>) -> Seq<char> {
    match json_member_of(text, key) {
        Some(member) => match json_string_of(member) {
            Some(s) => s,
            None => default,
        },
        None => default,
    }
}

fn string_member(text: &str, key: &str) -> (r: Option<String>)
    ensures
        match r {
            Some(s) => json_member_of(text@, key@) matches Some(m) && json_string_of(m) == Some(s@),
            None => json_member_of(text@, key@) matches Some(m) ==> json_string_of(m) is None,
        },
{
    match json_member(text, key) {
        Some(member) => json_string(member.as_str()),
        None => None,
    }
}

fn member_text(text: &str, key: &str, default: &str) -> (r: String)
    ensures
        r@ == member_or(text@, key@, default@),
{
    match string_member(text, key) {
        Some(s) => s,
        None => default.to_owned(),
    }
}

/// One task of a plan as a line.
pub open spec fn plan_line(task: Seq<char>) -> Seq<char> {
    "- "@ + member_or(task, "kind"@, "task"@) + ": "@ + member_or(
        task,
        "title"@,
        "(untitled)"@,
    )
}

/// The tasks of a plan as lines.
pub open spec fn plan_lines(plan: Seq<char>) -> Seq<char> {
    match json_member_of(plan, "tasks"@) {
        Some(tasks) => match json_items_of(tasks) {
            Some(items) => join_of(items.map_values(|t: Seq<char>| plan_line(t)), "\n"@),
            None => Seq::empty(),
        },
        None => Seq::empty(),
    }
}

/// A plan in short: its rationale, where it has one, and its tasks.
pub open spec fn outline_of(plan: Seq<char>) -> Seq<char> {
    let rationale = member_or(plan, "rationale"@, Seq::empty());
    if rationale.len() == 0 {
        plan_lines(plan)
    } else {
        rationale + "\n"@ + plan_lines(plan)
    }
}

fn task_lines(plan: &str) -> (r: String)
    ensures
        r@ == plan_lines(plan@),
{
    let items = match json_member(plan, "tasks") {
        Some(tasks) => json_items(tasks.as_str()),
        None => None,
    };
    match items {
        Some(items) => {
            let ghost all = views(items@).map_values(|t: Seq<char>| plan_line(t));
            let mut lines: Vec<String> = Vec::new();
            let mut i: usize = 0;
            assert(views(lines@) =~= all.subrange(0, 0));
            while i < items.len()
                invariant
                    i <= items@.len(),
                    all == views(items@).map_values(|t: Seq<char>| plan_line(t)),
                    views(lines@) == all.subrange(0, i as int),
                decreases items@.len() - i,
            {
                let kind = member_text(items[i].as_str(), "kind", "task");
                let title = member_text(items[i].as_str(), "title", "(untitled)");
                let mut line = cat3("- ", kind.as_str(), ": ");
                line.append(title.as_str());
                let ghost before = lines@;
                lines.push(line);
                i = i + 1;
                assert(views(lines@) =~= views(before).push(all[i - 1]));
                assert(views(lines@) =~= all.subrange(0, i as int));
            }
            assert(all.subrange(0, all.len() as int) =~= all);
            join(&lines, "\n")
        },
        None => String::new(),
    }
}

/// A plan, given as JSON text, in short.
pub fn plan_outline(plan: &str) -> (r: String)
    ensures
        r@ == outline_of(plan@),
{
    let tasks = task_lines(plan);
    match string_member(plan, "rationale") {
        Some(rationale) => if rationale.as_str().unicode_len() == 0 {
            tasks
        } else {
            cat3(rationale.as_str(), "\n", tasks.as_str())
        },
        None => tasks,
    }
}

/// The success criteria of an understanding, given as JSON text.
pub open spec fn criteria_of(understanding: Option<String>) -> Seq<Seq<char>> {
    match understanding {
        Some(text) => match json_member_of(text@, "success_criteria"@) {
            Some(member) => strings_of(member),
            None => Seq::empty(),
        },
        None => Seq::empty(),
    }
}

fn success_criteria(understanding: &Option<String>) -> (r: Vec<String>)
    ensures
        views(r@) == criteria_of(*understanding),
{
    let none: Vec<String> = Vec::new();
    assert(views(none@) =~= Seq::<Seq<char>>::empty());
    match understanding {
        Some(text) => match json_member(text.as_str(), "success_criteria") {
            Some(member) => strings(member.as_str()),
            None => none,
        },
        None => none,
    }
}

/// What the judge is shown of a run.
pub open spec fn is_run_evidence(
    run: RunOverviewRow,
    artifacts: Seq<ArtifactRow>,
    verdicts: Vec<TaskVerdict>,
    r: Evidence,
) -> bool {
    &&& r.goal == run.goal_text
    &&& views(r.success_criteria@) == criteria_of(run.understanding)
    &&& r.acceptance_criteria@ == r.success_criteria@
    &&& match run.plan {
        Some(plan) => r.plan matches Some(outline) && outline@ == outline_of(plan@),
        None => r.plan is None,
    }
    &&& r.artifacts@ == artifacts.map_values(|row: ArtifactRow| line_of(row))
    &&& r.integration == run.summary
    &&& r.transcript_summary is None
    &&& r.task_verdicts == verdicts
    &&& r.usage == (match run.usage {
        Some(usage) => usage,
        None => Usage::zero_spec(),
    })
}

/// What the judge is shown of a run: its goal, its success criteria (which count
/// as acceptance criteria too), the plan in short, what was integrated, and the
/// verdicts on its tasks.
pub fn run_evidence(
    run: &RunOverviewRow,
    artifacts: &Vec<ArtifactRow>,
    verdicts: Vec<TaskVerdict>,
) -> (r: Evidence)
    ensures
        is_run_evidence(*run, artifacts@, verdicts, r),
{
    let success = success_criteria(&run.understanding);
    let plan = match &run.plan {
        Some(plan) => Some(plan_outline(plan.as_str())),
        None => None,
    };
    let usage = match run.usage {
        Some(usage) => usage,
        None => Usage::zero(),
    };
    Evidence {
        goal: run.goal_text.clone(),
        acceptance_criteria: copy_strings(&success),
        success_criteria: success,
        plan,
        artifacts: artifact_lines(artifacts),
        integration: clone_text(&run.summary),
        transcript_summary: None,
        task_verdicts: verdicts,
        usage,
    }
}

// ---------------------------------------------------------------------------
// Laws
// ---------------------------------------------------------------------------
/// A task is judged by what it was to do and what came of it: its title and
/// instructions, its criteria, its artifacts one by one, its summary, its usage,
/// its route and its last attempt.
pub proof fn law_a_task_is_judged_by_its_work(
    task: TaskBoardRow,
    artifacts: Seq<ArtifactRow>,
    r: TaskRequest,
    i: int,
)
    requires
        asks_for_a_verdict(task, artifacts, r),
    ensures
        r.run_id == task.run_id && r.task_id == task.task_id && r.kind == task.kind,
        r.evidence.goal@ == task.spec.title@ + "\n\n"@ + task.spec.instructions@,
        r.evidence.acceptance_criteria@ == task.spec.acceptance_criteria@,
        r.evidence.transcript_summary == task.summary,
        r.evidence.plan is None && r.evidence.integration is None,
        r.evidence.success_criteria@.len() == 0 && r.evidence.task_verdicts@.len() == 0,
        r.executor_route == task.route,
        r.evidence.artifacts@.len() == artifacts.len(),
        0 <= i < artifacts.len() ==> r.evidence.artifacts@[i].kind == artifacts[i].kind
            && r.evidence.artifacts@[i].uri == artifacts[i].uri,
        task.attempts@.len() == 0 ==> r.attempt_id is None,
        task.attempts@.len() > 0 ==> r.attempt_id == Some(
            task.attempts@[task.attempts@.len() - 1].id,
        ),
        task.input_tokens >= 0 ==> r.evidence.usage.input_tokens == task.input_tokens,
        task.output_tokens >= 0 ==> r.evidence.usage.output_tokens == task.output_tokens,
        task.cache_read_tokens >= 0 ==> r.evidence.usage.cache_read_tokens
            == task.cache_read_tokens,
        task.cache_write_tokens >= 0 ==> r.evidence.usage.cache_write_tokens
            == task.cache_write_tokens,
        task.wall_ms >= 0 ==> r.evidence.usage.wall_ms == task.wall_ms,
        task.input_tokens < 0 ==> r.evidence.usage.input_tokens == 0,
        r.evidence.usage.cost_usd == task.cost_usd.0,
{
}

/// A run is judged by its goal, its success criteria, its plan, what was
/// integrated, its artifacts one by one, its usage and the verdicts on its tasks.
pub proof fn law_a_run_is_judged_by_its_results(
    run: RunOverviewRow,
    artifacts: Seq<ArtifactRow>,
    verdicts: Vec<TaskVerdict>,
    r: Evidence,
    i: int,
)
    requires
        is_run_evidence(run, artifacts, verdicts, r),
    ensures
        r.goal == run.goal_text,
        r.integration == run.summary,
        r.task_verdicts == verdicts,
        r.transcript_summary is None,
        r.acceptance_criteria@ == r.success_criteria@,
        run.plan is None <==> r.plan is None,
        run.understanding is None ==> r.success_criteria@.len() == 0,
        run.usage matches Some(usage) ==> r.usage == usage,
        run.usage is None ==> r.usage.input_tokens == 0 && r.usage.output_tokens == 0
            && r.usage.cost_usd is None,
        r.artifacts@.len() == artifacts.len(),
        0 <= i < artifacts.len() ==> r.artifacts@[i].kind == artifacts[i].kind && r.artifacts@[i].uri
            == artifacts[i].uri,
{
    if run.understanding is None {
        assert(views(r.success_criteria@).len() == 0);
    }
}

/// A plan in short is its rationale and then a line for each task; a task without
/// a kind or a title is shown as such.
pub proof fn law_a_plan_is_outlined(plan: Seq<char>, task: Seq<char>)
    ensures
        member_or(plan, "rationale"@, Seq::empty()).len() == 0 ==> outline_of(plan) == plan_lines(
            plan,
        ),
        member_or(plan, "rationale"@, Seq::empty()).len() > 0 ==> outline_of(plan) == member_or(
            plan,
            "rationale"@,
            Seq::empty(),
        ) + "\n"@ + plan_lines(plan),
        plan_line(task) == "- "@ + member_or(task, "kind"@, "task"@) + ": "@ + member_or(
            task,
            "title"@,
            "(untitled)"@,
        ),
        json_member_of(task, "kind"@) is None ==> member_or(task, "kind"@, "task"@) == "task"@,
        (json_member_of(task, "title"@) matches Some(m) && (json_string_of(m) matches Some(s)))
            ==> member_or(task, "title"@, "(untitled)"@) == json_string_of(
            json_member_of(task, "title"@)->0,
        )->0,
        json_member_of(plan, "tasks"@) is None ==> plan_lines(plan).len() == 0,
{
}


} // verus!
