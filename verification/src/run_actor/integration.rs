//! The last phases of a run: integrating the results, resolving conflicts once,
//! and having the run judged.
use vstd::prelude::*;

use super::actor::{
    ActorModel, Failure, FailureView, ReasonView, RunActor, StopAll,
};
use crate::domain::{
    ArtifactRef, EvaluationId, FailureClass, RunStatus, Task, TaskId, TaskSpec, Workspace,
    WorkspacePolicy,
};
use crate::events::RunFailureReason;
use crate::ids::{uuid_text, uuid_text_of};
use crate::roles::context::{Plan, PlanTask};
use crate::text::{cat, cat3, join, join_of, views};

verus! {

broadcast use vstd::std_specs::btree::group_btree_axioms;

/// The judge's verdict on a run; `overall` is an IEEE bit pattern.
#[derive(Debug, PartialEq, Eq)]
pub struct RunEvaluation {
    pub evaluation_id: EvaluationId,
    pub overall: u32,
    pub verdict: String,
}

/// What a job of the run (a planner's call, the integration, the judge) reports.
#[derive(Debug, PartialEq, Eq)]
pub enum PhaseOutcome {
    /// Everything is on record.
    Noop,
    /// The run is to fail.
    Failed(Failure),
    IntegrationDone { artifacts: Vec<ArtifactRef>, summary: String },
    IntegrationConflicts { conflicts: Vec<String> },
    /// `None` where there is no verdict.
    Evaluated(Option<RunEvaluation>),
}

/// What follows the report of a job.
#[derive(Debug, PartialEq, Eq)]
#[allow(inconsistent_fields)]
pub enum PhaseStep {
    Nothing,
    /// The run is to fail: end the running attempts.
    Stop(StopAll),
    MarkIntegrated { artifacts: Vec<ArtifactRef>, summary: String },
    MarkEvaluated { evaluation: Option<RunEvaluation>, summary: String },
    /// Create the task that resolves the conflicts.
    ResolveConflicts(TaskSpec),
}

/// What is integrated: of the tasks that succeeded, in order.
#[derive(Debug, PartialEq, Eq)]
pub struct IntegrationInput {
    /// The acceptance criteria of the plan.
    pub criteria: Vec<String>,
    pub workspaces: Vec<Workspace>,
    pub summaries: Vec<String>,
    pub artifacts: Vec<ArtifactRef>,
}

// ---------------------------------------------------------------------------
// Model
// ---------------------------------------------------------------------------
/// The acceptance criteria of all tasks of a plan, in order.
pub open spec fn criteria_of(tasks: Seq<PlanTask>) -> Seq<String>
    decreases tasks.len(),
{
    if tasks.len() == 0 {
        Seq::empty()
    } else {
        criteria_of(tasks.drop_last()) + tasks.last().acceptance_criteria@
    }
}

/// The workspaces of the tasks' last attempts.
pub open spec fn workspaces_of(tasks: Seq<Task>) -> Seq<Workspace>
    decreases tasks.len(),
{
    if tasks.len() == 0 {
        Seq::empty()
    } else {
        let before = workspaces_of(tasks.drop_last());
        match tasks.last().last_attempt {
            Some(attempt) => before.push(attempt.workspace),
            None => before,
        }
    }
}

/// The summaries of the tasks' last attempts.
pub open spec fn summaries_of(tasks: Seq<Task>) -> Seq<String>
    decreases tasks.len(),
{
    if tasks.len() == 0 {
        Seq::empty()
    } else {
        let before = summaries_of(tasks.drop_last());
        match tasks.last().last_attempt {
            Some(attempt) => match attempt.summary {
                Some(summary) => before.push(summary),
                None => before,
            },
            None => before,
        }
    }
}

/// The artifacts of the tasks.
pub open spec fn artifacts_of(tasks: Seq<Task>) -> Seq<ArtifactRef>
    decreases tasks.len(),
{
    if tasks.len() == 0 {
        Seq::empty()
    } else {
        artifacts_of(tasks.drop_last()) + tasks.last().artifacts@
    }
}

/// The summary of a run that is judged.
pub open spec fn final_summary(actor: ActorModel) -> Seq<char> {
    if actor.integration_summary.len() == 0 {
        "run "@ + uuid_text_of(actor.run_id) + " finished"@
    } else {
        actor.integration_summary
    }
}

/// The failure of a run whose conflicts came back.
pub open spec fn unresolved(conflicts: Seq<String>) -> FailureView {
    FailureView {
        reason: ReasonView::IntegrationFailed,
        class: FailureClass::Permanent,
        message: Some("unresolved conflicts: "@ + join_of(views(conflicts), ", "@)),
    }
}

/// The task that resolves conflicts.
pub open spec fn is_conflict_task(spec: TaskSpec, conflicts: Seq<String>) -> bool {
    &&& spec.title@ == "Resolve integration conflicts"@
    &&& spec.instructions@ == "Merging the task branches produced conflicts. Resolve them and leave the integration branch buildable.\n\nConflicting sources:\n- "@
        + join_of(views(conflicts), "\n- "@)
    &&& spec.inputs@.len() == 0
    &&& spec.acceptance_criteria@.len() == 1
    &&& spec.acceptance_criteria@[0]@ == "every conflict is resolved"@
    &&& spec.depends_on@.len() == 0
    &&& spec.workspace_policy == WorkspacePolicy::Shared
    &&& !spec.parallel_safe
    &&& !spec.optional
    &&& spec.output_schema is None
}

/// What conflicts lead to: a task that resolves them the first time, and the
/// run's failure the second time.
pub open spec fn conflicted(
    was: ActorModel,
    conflicts: Seq<String>,
    next: ActorModel,
    step: PhaseStep,
) -> bool {
    if was.integration_retried {
        match was.failing(unresolved(conflicts)) {
            Some(after) => next == after && (step matches PhaseStep::Stop(stop) && stop.class
                == FailureClass::Cancelled && stop.message@ == "integration_failed"@),
            None => next == was && step == PhaseStep::Nothing,
        }
    } else {
        next == (ActorModel { integration_retried: true, ..was }) && (
        step matches PhaseStep::ResolveConflicts(spec) && is_conflict_task(spec, conflicts))
    }
}

/// What is integrated, and that it is on its way.
pub open spec fn integration_started(
    was: ActorModel,
    next: ActorModel,
    input: Option<IntegrationInput>,
) -> bool {
    let idle = !was.integration_in_flight && was.integration_task is None;
    let done = was.view.succeeded();
    &&& input is Some <==> idle
    &&& !idle ==> next == was
    &&& idle ==> next == (ActorModel { integration_in_flight: true, ..was })
    &&& input matches Some(i) ==> {
        &&& i.criteria@ == (match was.view.run.plan {
            Some(plan) => criteria_of(plan.tasks@),
            None => Seq::empty(),
        })
        &&& i.workspaces@ == workspaces_of(done)
        &&& i.summaries@ == summaries_of(done)
        &&& i.artifacts@ == artifacts_of(done)
    }
}

/// What the report of a job leads to.
pub open spec fn phase_taken(
    was: ActorModel,
    outcome: PhaseOutcome,
    next: ActorModel,
    step: PhaseStep,
) -> bool {
    match outcome {
        PhaseOutcome::Noop => step == PhaseStep::Nothing && next == was,
        PhaseOutcome::Failed(failure) => match was.failing(failure@) {
            Some(after) => next == after && (step matches PhaseStep::Stop(stop) && stop.class
                == super::actor::stop_class(failure.class) && stop.message@
                == failure@.reason.label()),
            None => step == PhaseStep::Nothing && next == was,
        },
        PhaseOutcome::IntegrationDone { artifacts, summary } => step
            == (PhaseStep::MarkIntegrated { artifacts, summary }) && next == (ActorModel {
            integration_summary: summary@,
            ..was
        }),
        PhaseOutcome::IntegrationConflicts { conflicts } => conflicted(
            (ActorModel { integration_in_flight: false, ..was }),
            conflicts@,
            next,
            step,
        ),
        PhaseOutcome::Evaluated(evaluation) => next == was && (
        step matches PhaseStep::MarkEvaluated { evaluation: e, summary } && e == evaluation
            && summary@ == final_summary(was)),
    }
}

/// What it leads to that the conflict task was created, or could not be.
pub open spec fn conflict_task_made(
    was: ActorModel,
    created: Result<TaskId, String>,
    next: ActorModel,
    stop: Option<StopAll>,
) -> bool {
    match created {
        Ok(id) => stop is None && next == (ActorModel { integration_task: Some(id), ..was }),
        Err(message) => {
            let failure = FailureView {
                reason: ReasonView::IntegrationFailed,
                class: FailureClass::Permanent,
                message: Some(message@),
            };
            match was.failing(failure) {
                Some(after) => next == after && (stop matches Some(s) && s.class
                    == FailureClass::Cancelled && s.message@ == "integration_failed"@),
                None => stop is None && next == was,
            }
        },
    }
}

// ---------------------------------------------------------------------------
// Collecting
// ---------------------------------------------------------------------------
fn plan_criteria(plan: &Option<Plan>) -> (r: Vec<String>)
    ensures
        r@ == (match *plan {
            Some(p) => criteria_of(p.tasks@),
            None => Seq::empty(),
        }),
{
    let mut out: Vec<String> = Vec::new();
    if let Some(p) = plan {
        let mut i: usize = 0;
        while i < p.tasks.len()
            invariant
                i <= p.tasks@.len(),
                out@ == criteria_of(p.tasks@.subrange(0, i as int)),
            decreases p.tasks@.len() - i,
        {
            let list = &p.tasks[i].acceptance_criteria;
            let ghost before = out@;
            proof {
                let next = p.tasks@.subrange(0, i + 1);
                assert(next.drop_last() =~= p.tasks@.subrange(0, i as int));
                assert(next.last() == p.tasks@[i as int]);
            }
            let mut k: usize = 0;
            assert(before + list@.subrange(0, 0) =~= before);
            while k < list.len()
                invariant
                    k <= list@.len(),
                    out@ == before + list@.subrange(0, k as int),
                decreases list@.len() - k,
            {
                out.push(list[k].clone());
                k = k + 1;
                assert(out@ =~= before + list@.subrange(0, k as int));
            }
            assert(list@.subrange(0, list@.len() as int) =~= list@);
            i = i + 1;
        }
        assert(p.tasks@.subrange(0, p.tasks@.len() as int) =~= p.tasks@);
    }
    out
}

fn push_artifacts(out: &mut Vec<ArtifactRef>, items: &Vec<ArtifactRef>)
    ensures
        final(out)@ == old(out)@ + items@,
{
    let ghost before = out@;
    let mut k: usize = 0;
    assert(before + items@.subrange(0, 0) =~= before);
    while k < items.len()
        invariant
            k <= items@.len(),
            out@ == before + items@.subrange(0, k as int),
        decreases items@.len() - k,
    {
        out.push(items[k].clone());
        k = k + 1;
        assert(out@ =~= before + items@.subrange(0, k as int));
    }
    assert(items@.subrange(0, items@.len() as int) =~= items@);
}

impl RunActor {
    /// What to integrate; nothing while an integration is on its way or the
    /// conflicts of the last one are being resolved.
    pub fn start_integration(&mut self) -> (r: Option<IntegrationInput>)
        ensures
            integration_started(old(self)@, final(self)@, r),
    {
        if self.integration_in_flight || self.integration_task.is_some() {
            return None;
        }
        self.integration_in_flight = true;
        let criteria = plan_criteria(&self.view.run.plan);
        let done = self.view.succeeded();
        let mut workspaces: Vec<Workspace> = Vec::new();
        let mut summaries: Vec<String> = Vec::new();
        let mut artifacts: Vec<ArtifactRef> = Vec::new();
        let mut i: usize = 0;
        let ghost all = done@.unref();
        while i < done.len()
            invariant
                i <= done@.len(),
                all == done@.unref(),
                workspaces@ == workspaces_of(all.subrange(0, i as int)),
                summaries@ == summaries_of(all.subrange(0, i as int)),
                artifacts@ == artifacts_of(all.subrange(0, i as int)),
            decreases done@.len() - i,
        {
            let task = done[i];
            proof {
                let next = all.subrange(0, i + 1);
                assert(next.drop_last() =~= all.subrange(0, i as int));
                assert(next.last() == *task);
            }
            if let Some(attempt) = &task.last_attempt {
                workspaces.push(attempt.workspace.clone());
                if let Some(summary) = &attempt.summary {
                    summaries.push(summary.clone());
                }
            }
            push_artifacts(&mut artifacts, &task.artifacts);
            i = i + 1;
        }
        assert(all.subrange(0, all.len() as int) =~= all);
        Some(IntegrationInput { criteria, workspaces, summaries, artifacts })
    }

    /// Takes the report of a job and says what follows. The flags of the
    /// integration and of the judge stay set, since each happens once; only
    /// conflicts make room for another integration.
    pub fn on_phase(&mut self, outcome: PhaseOutcome) -> (r: PhaseStep)
        ensures
            phase_taken(old(self)@, outcome, final(self)@, r),
    {
        match outcome {
            PhaseOutcome::Noop => PhaseStep::Nothing,
            PhaseOutcome::Failed(failure) => match self.request_failure(failure) {
                Some(stop) => PhaseStep::Stop(stop),
                None => PhaseStep::Nothing,
            },
            PhaseOutcome::IntegrationDone { artifacts, summary } => {
                self.integration_summary = summary.clone();
                PhaseStep::MarkIntegrated { artifacts, summary }
            },
            PhaseOutcome::IntegrationConflicts { conflicts } => {
                self.integration_in_flight = false;
                self.on_conflicts(conflicts)
            },
            PhaseOutcome::Evaluated(evaluation) => {
                let summary = if self.integration_summary.as_str().unicode_len() == 0 {
                    let id_text = uuid_text(self.run_id);
                    cat3("run ", id_text.as_str(), " finished")
                } else {
                    self.integration_summary.clone()
                };
                PhaseStep::MarkEvaluated { evaluation, summary }
            },
        }
    }

    fn on_conflicts(&mut self, conflicts: Vec<String>) -> (r: PhaseStep)
        ensures
            conflicted(old(self)@, conflicts@, final(self)@, r),
    {
        if self.integration_retried {
            let list = join(&conflicts, ", ");
            let failure = Failure {
                reason: RunFailureReason::IntegrationFailed,
                class: FailureClass::Permanent,
                message: Some(cat("unresolved conflicts: ", list.as_str())),
            };
            return match self.request_failure(failure) {
                Some(stop) => PhaseStep::Stop(stop),
                None => PhaseStep::Nothing,
            };
        }
        self.integration_retried = true;
        let list = join(&conflicts, "\n- ");
        let instructions = cat(
            "Merging the task branches produced conflicts. Resolve them and leave the integration branch buildable.\n\nConflicting sources:\n- ",
            list.as_str(),
        );
        let mut spec = TaskSpec::new("Resolve integration conflicts", instructions.as_str());
        let mut criteria: Vec<String> = Vec::new();
        criteria.push("every conflict is resolved".to_owned());
        spec.acceptance_criteria = criteria;
        spec.workspace_policy = WorkspacePolicy::Shared;
        spec.parallel_safe = false;
        PhaseStep::ResolveConflicts(spec)
    }

    /// The task that resolves conflicts was created, or the run is to fail.
    pub fn on_conflict_task(&mut self, created: Result<TaskId, String>) -> (r: Option<StopAll>)
        ensures
            conflict_task_made(old(self)@, created, final(self)@, r),
    {
        match created {
            Ok(id) => {
                self.integration_task = Some(id);
                None
            },
            Err(message) => self.request_failure(
                Failure {
                    reason: RunFailureReason::IntegrationFailed,
                    class: FailureClass::Permanent,
                    message: Some(message),
                },
            ),
        }
    }
}

// ---------------------------------------------------------------------------
// Laws
// ---------------------------------------------------------------------------
/// Conflicts are resolved once: the second time they fail a run that is going on.
pub proof fn law_conflicts_are_resolved_once(
    first: ActorModel,
    conflicts: Seq<String>,
    second: ActorModel,
    one: PhaseStep,
    again: Seq<String>,
    third: ActorModel,
    two: PhaseStep,
)
    requires
        conflicted(first, conflicts, second, one),
        conflicted(second, again, third, two),
        !first.view.run.status.terminal(),
        first.pending is None,
    ensures
        !first.integration_retried ==> one is ResolveConflicts && two is Stop && third.pending
            == Some(unresolved(again)),
        !(two is ResolveConflicts),
{
}

/// An integration starts exactly when none is on its way and no conflicts are
/// being resolved, and then it is on its way.
pub proof fn law_one_integration_at_a_time(
    was: ActorModel,
    next: ActorModel,
    input: Option<IntegrationInput>,
)
    requires
        integration_started(was, next, input),
    ensures
        input is Some <==> !was.integration_in_flight && was.integration_task is None,
        input is Some ==> next.integration_in_flight && next == (ActorModel {
            integration_in_flight: true,
            ..was
        }),
        input is None ==> next == was,
{
}

/// An integration that was started is not started again.
pub proof fn law_an_integration_starts_once(
    first: ActorModel,
    second: ActorModel,
    one: Option<IntegrationInput>,
    third: ActorModel,
    two: Option<IntegrationInput>,
)
    requires
        integration_started(first, second, one),
        integration_started(second, third, two),
    ensures
        two is None,
        third == second,
{
}

/// What is integrated is all of the results, task by task: the checkout of each
/// last attempt, its summary where it has one, and every artifact.
pub proof fn law_every_result_is_integrated(tasks: Seq<Task>, task: Task)
    ensures
        workspaces_of(Seq::empty()).len() == 0,
        summaries_of(Seq::empty()).len() == 0,
        artifacts_of(Seq::empty()).len() == 0,
        task.last_attempt matches Some(a) ==> workspaces_of(tasks.push(task)) == workspaces_of(
            tasks,
        ).push(a.workspace),
        task.last_attempt is None ==> workspaces_of(tasks.push(task)) == workspaces_of(tasks)
            && summaries_of(tasks.push(task)) == summaries_of(tasks),
        task.last_attempt matches Some(a) ==> (a.summary matches Some(s) ==> summaries_of(
            tasks.push(task),
        ) == summaries_of(tasks).push(s)),
        task.last_attempt matches Some(a) ==> a.summary is None ==> summaries_of(tasks.push(task))
            == summaries_of(tasks),
        artifacts_of(tasks.push(task)) == artifacts_of(tasks) + task.artifacts@,
{
    assert(tasks.push(task).drop_last() =~= tasks);
}

/// The integration is held to the criteria of every task of the plan.
pub proof fn law_all_criteria_count(tasks: Seq<PlanTask>, task: PlanTask)
    ensures
        criteria_of(Seq::empty()).len() == 0,
        criteria_of(tasks.push(task)) == criteria_of(tasks) + task.acceptance_criteria@,
{
    assert(tasks.push(task).drop_last() =~= tasks);
}

/// What the report of a job leads to: a failure fails the run, an integration that
/// is done is recorded with its artifacts and its summary, the first conflicts are
/// given to a task, and a verdict, or that there is none, is recorded with the
/// summary of the run.
pub proof fn law_reports_are_followed(
    was: ActorModel,
    outcome: PhaseOutcome,
    next: ActorModel,
    step: PhaseStep,
)
    requires
        phase_taken(was, outcome, next, step),
    ensures
        outcome is Noop ==> step is Nothing && next == was,
        outcome matches PhaseOutcome::Failed(f) ==> was.pending is None && was.view.run.status
            != RunStatus::Completed && was.view.run.status != RunStatus::Failed
            && was.view.run.status != RunStatus::Cancelled ==> step is Stop && next.pending
            == Some(f@),
        outcome matches PhaseOutcome::IntegrationDone { artifacts, summary } ==> step
            == (PhaseStep::MarkIntegrated { artifacts, summary }) && next.integration_summary
            == summary@ && next.integration_in_flight == was.integration_in_flight,
        outcome is IntegrationConflicts && !was.integration_retried ==> step is ResolveConflicts
            && next.integration_retried && !next.integration_in_flight && next.pending
            == was.pending,
        outcome is IntegrationConflicts && was.integration_retried && was.pending is None
            && was.view.run.status != RunStatus::Completed && was.view.run.status
            != RunStatus::Failed && was.view.run.status != RunStatus::Cancelled ==> (
        step matches PhaseStep::Stop(stop) && stop.class == FailureClass::Cancelled && stop.message@
            == "integration_failed"@) && (next.pending matches Some(f) && f.reason is IntegrationFailed && f.class
            == FailureClass::Permanent),
        outcome matches PhaseOutcome::Evaluated(evaluation) ==> next == was && (
        step matches PhaseStep::MarkEvaluated { evaluation: e, summary } && e == evaluation && (
        was.integration_summary.len() > 0 ==> summary@ == was.integration_summary) && (
        was.integration_summary.len() == 0 ==> summary@ == "run "@ + uuid_text_of(was.run_id)
            + " finished"@)),
{
}

/// The task that resolves conflicts works in the shared checkout, alone, is
/// required, waits for nothing, and is told every conflict.
pub proof fn law_the_conflict_task_works_alone(spec: TaskSpec, conflicts: Seq<String>)
    requires
        is_conflict_task(spec, conflicts),
    ensures
        spec.workspace_policy == WorkspacePolicy::Shared,
        !spec.parallel_safe,
        !spec.optional,
        spec.depends_on@.len() == 0,
        spec.acceptance_criteria@.len() == 1,
        spec.acceptance_criteria@[0]@ == "every conflict is resolved"@,
        spec.instructions@.len() >= join_of(views(conflicts), "\n- "@).len(),
        spec.instructions@.subrange(
            spec.instructions@.len() - join_of(views(conflicts), "\n- "@).len(),
            spec.instructions@.len() as int,
        ) == join_of(views(conflicts), "\n- "@),
{
    let list = join_of(views(conflicts), "\n- "@);
    assert(spec.instructions@.subrange(
        spec.instructions@.len() - list.len(),
        spec.instructions@.len() as int,
    ) =~= list);
}

/// The conflict task is remembered once it was created; where it could not be, the
/// run fails for the integration.
pub proof fn law_a_conflict_task_is_remembered(
    was: ActorModel,
    created: Result<TaskId, String>,
    next: ActorModel,
    stop: Option<StopAll>,
)
    requires
        conflict_task_made(was, created, next, stop),
    ensures
        created matches Ok(id) ==> next.integration_task == Some(id) && stop is None
            && next.pending == was.pending,
        created is Err && was.pending is None && was.view.run.status != RunStatus::Completed
            && was.view.run.status != RunStatus::Failed && was.view.run.status
            != RunStatus::Cancelled ==> (stop matches Some(s) && s.class == FailureClass::Cancelled
            && s.message@ == "integration_failed"@) && (next.pending matches Some(f)
            && f.reason is IntegrationFailed && f.class == FailureClass::Permanent && (
        f.message matches Some(m) && m == created->Err_0@)),
        created is Err && (was.pending is Some || was.view.run.status == RunStatus::Completed
            || was.view.run.status == RunStatus::Failed || was.view.run.status
            == RunStatus::Cancelled) ==> stop is None && next == was,
        created is Err ==> next.integration_task == was.integration_task,
{
}

/// What an integration is given is what the tasks that succeeded left behind, and
/// the criteria of the plan, if there is one.
pub proof fn law_an_integration_is_given_the_successes(
    was: ActorModel,
    next: ActorModel,
    input: Option<IntegrationInput>,
)
    requires
        integration_started(was, next, input),
    ensures
        input matches Some(i) ==> i.workspaces@ == workspaces_of(was.view.succeeded()),
        input matches Some(i) ==> i.summaries@ == summaries_of(was.view.succeeded()),
        input matches Some(i) ==> i.artifacts@ == artifacts_of(was.view.succeeded()),
        input matches Some(i) ==> (was.view.run.plan matches Some(plan) ==> i.criteria@
            == criteria_of(plan.tasks@)),
        input matches Some(i) ==> was.view.run.plan is None ==> i.criteria@.len() == 0,
{
}

/// A run that is over, or about to fail, is not failed again: neither by a report
/// nor by conflicts.
pub proof fn law_a_run_fails_once(
    was: ActorModel,
    outcome: PhaseOutcome,
    next: ActorModel,
    step: PhaseStep,
)
    requires
        phase_taken(was, outcome, next, step),
        was.pending is Some || was.view.run.status == RunStatus::Completed || was.view.run.status
            == RunStatus::Failed || was.view.run.status == RunStatus::Cancelled,
    ensures
        !(step is Stop),
        next.pending == was.pending,
        outcome is Failed ==> step is Nothing && next == was,
        outcome is IntegrationConflicts && was.integration_retried ==> step is Nothing && next == (
        ActorModel { integration_in_flight: false, ..was }),
{
}

} // verus!
