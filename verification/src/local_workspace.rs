//! What is handed to the workspace manager, and what is made of its answers.
use vstd::prelude::*;

use crate::convert::{
    artifact_from_manager, policy_to_manager, workspace_to_manager, ManagerArtifact,
    ManagerPolicy, ManagerWorkspace,
};
use crate::domain::{ArtifactRef, AttemptId, RunId, TaskId, Workspace, WorkspacePolicy};
use crate::ports::{IntegrateRequest, IntegrationOutcome, PrepareWorkspace};
use crate::text::{cat3, join, join_of, views};

verus! {

/// The checkout that the manager is asked for.
#[derive(Debug, PartialEq, Eq)]
pub struct PrepareRequest {
    pub run_id: RunId,
    pub task_id: TaskId,
    pub attempt_id: AttemptId,
    pub slug: String,
    pub policy: ManagerPolicy,
}

/// The integration that the manager is asked for.
#[derive(Debug, PartialEq, Eq)]
pub struct IntegrationRun {
    pub run_id: RunId,
    pub title: String,
    pub summary: String,
    pub acceptance_criteria: Vec<String>,
    pub base_branch: Option<String>,
}

/// A merge conflict: its source and the files in it.
#[derive(Debug, PartialEq, Eq)]
pub struct MergeConflict {
    pub source: String,
    pub files: Vec<String>,
}

/// The request that stands for a checkout.
pub open spec fn request_of(req: PrepareWorkspace) -> PrepareRequest {
    PrepareRequest {
        run_id: req.run_id,
        task_id: req.task_id,
        attempt_id: req.attempt_id,
        slug: req.task_slug,
        policy: req.policy.manager(),
    }
}

/// The request for a checkout.
pub fn prepare_request(req: PrepareWorkspace) -> (r: PrepareRequest)
    ensures
        r == request_of(req),
{
    PrepareRequest {
        run_id: req.run_id,
        task_id: req.task_id,
        attempt_id: req.attempt_id,
        slug: req.task_slug,
        policy: policy_to_manager(req.policy),
    }
}

/// The workspaces as the manager knows them, in order.
pub open spec fn manager_workspaces(items: Seq<Workspace>) -> Seq<ManagerWorkspace> {
    items.map_values(|w: Workspace| w.manager())
}

/// The request for an integration, against the default base.
pub fn integration_run(req: IntegrateRequest) -> (r: (IntegrationRun, Vec<ManagerWorkspace>))
    ensures
        r.0 == (IntegrationRun {
            run_id: req.run_id,
            title: req.title,
            summary: req.summary,
            acceptance_criteria: req.acceptance_criteria,
            base_branch: None,
        }),
        r.1@ == manager_workspaces(req.workspaces@),
{
    let ghost all = manager_workspaces(req.workspaces@);
    let mut workspaces: Vec<ManagerWorkspace> = Vec::new();
    let mut i: usize = 0;
    while i < req.workspaces.len()
        invariant
            i <= req.workspaces@.len(),
            all == manager_workspaces(req.workspaces@),
            workspaces@ == all.subrange(0, i as int),
        decreases req.workspaces@.len() - i,
    {
        workspaces.push(workspace_to_manager(&req.workspaces[i]));
        i = i + 1;
        assert(workspaces@ =~= all.subrange(0, i as int));
    }
    assert(all.subrange(0, all.len() as int) =~= all);
    let run = IntegrationRun {
        run_id: req.run_id,
        title: req.title,
        summary: req.summary,
        acceptance_criteria: req.acceptance_criteria,
        base_branch: None,
    };
    (run, workspaces)
}

/// A conflict as text: its source, and the files in brackets.
pub open spec fn conflict_shown(c: MergeConflict) -> Seq<char> {
    if c.files@.len() == 0 {
        c.source@
    } else {
        c.source@ + " ("@ + join_of(views(c.files@), ", "@) + ")"@
    }
}

/// A conflict as text.
pub fn conflict_text(conflict: &MergeConflict) -> (r: String)
    ensures
        r@ == conflict_shown(*conflict),
{
    if conflict.files.len() == 0 {
        conflict.source.clone()
    } else {
        let files = join(&conflict.files, ", ");
        let mut s = cat3(conflict.source.as_str(), " (", files.as_str());
        s.append(")");
        s
    }
}

/// The artifact of a manager's copy.
pub open spec fn artifact_of(a: ManagerArtifact) -> ArtifactRef {
    ArtifactRef { id: a.id, kind: a.kind, uri: a.uri, sha256: a.sha256, bytes: a.bytes }
}

/// What came of the integration.
pub fn integration_outcome(
    artifacts: &Vec<ManagerArtifact>,
    conflicts: &Vec<MergeConflict>,
) -> (r: IntegrationOutcome)
    ensures
        r.artifacts@ == artifacts@.map_values(|a: ManagerArtifact| artifact_of(a)),
        views(r.conflicts@) == conflicts@.map_values(|c: MergeConflict| conflict_shown(c)),
{
    let ghost all = artifacts@.map_values(|a: ManagerArtifact| artifact_of(a));
    let mut out: Vec<ArtifactRef> = Vec::new();
    let mut i: usize = 0;
    while i < artifacts.len()
        invariant
            i <= artifacts@.len(),
            all == artifacts@.map_values(|a: ManagerArtifact| artifact_of(a)),
            out@ == all.subrange(0, i as int),
        decreases artifacts@.len() - i,
    {
        out.push(artifact_from_manager(&artifacts[i]));
        i = i + 1;
        assert(out@ =~= all.subrange(0, i as int));
    }
    assert(all.subrange(0, all.len() as int) =~= all);
    let ghost texts = conflicts@.map_values(|c: MergeConflict| conflict_shown(c));
    let mut lines: Vec<String> = Vec::new();
    let mut k: usize = 0;
    assert(views(lines@) =~= texts.subrange(0, 0));
    while k < conflicts.len()
        invariant
            k <= conflicts@.len(),
            texts == conflicts@.map_values(|c: MergeConflict| conflict_shown(c)),
            views(lines@) == texts.subrange(0, k as int),
        decreases conflicts@.len() - k,
    {
        let ghost before = lines@;
        lines.push(conflict_text(&conflicts[k]));
        k = k + 1;
        assert(views(lines@) =~= views(before).push(texts[k - 1]));
        assert(views(lines@) =~= texts.subrange(0, k as int));
    }
    assert(texts.subrange(0, texts.len() as int) =~= texts);
    IntegrationOutcome { artifacts: out, conflicts: lines }
}

// ---------------------------------------------------------------------------
// Laws
// ---------------------------------------------------------------------------
/// A checkout is asked for as the attempt needs it: for its run, task and attempt,
/// under the task's title and with its policy.
pub proof fn law_a_checkout_is_the_attempts(req: PrepareWorkspace)
    ensures
        request_of(req).run_id == req.run_id,
        request_of(req).task_id == req.task_id,
        request_of(req).attempt_id == req.attempt_id,
        request_of(req).slug == req.task_slug,
        req.policy == WorkspacePolicy::Isolated <==> request_of(req).policy
            == ManagerPolicy::Isolated,
        req.policy == WorkspacePolicy::Shared <==> request_of(req).policy == ManagerPolicy::Shared,
        req.policy == WorkspacePolicy::ReadOnly <==> request_of(req).policy
            == ManagerPolicy::ReadOnly,
{
}

/// Every checkout is integrated, in order, as it is.
pub proof fn law_every_checkout_is_integrated(items: Seq<Workspace>, i: int)
    requires
        0 <= i < items.len(),
    ensures
        manager_workspaces(items).len() == items.len(),
        manager_workspaces(items)[i].root == items[i].root,
        manager_workspaces(items)[i].kind == items[i].kind,
        manager_workspaces(items)[i].base_rev == items[i].base_rev,
{
}

/// A conflict is told by its source, and by its files where they are known.
pub proof fn law_conflicts_name_their_files(c: MergeConflict)
    ensures
        c.files@.len() == 0 ==> conflict_shown(c) == c.source@,
        c.files@.len() > 0 ==> conflict_shown(c) == c.source@ + " ("@ + join_of(
            views(c.files@),
            ", "@,
        ) + ")"@,
{
}

/// An artifact of the manager is taken over as it is.
pub proof fn law_artifacts_are_taken_over(a: ManagerArtifact)
    ensures
        artifact_of(a).id == a.id,
        artifact_of(a).kind == a.kind,
        artifact_of(a).uri == a.uri,
        artifact_of(a).sha256 == a.sha256,
        artifact_of(a).bytes == a.bytes,
{
}

} // verus!
