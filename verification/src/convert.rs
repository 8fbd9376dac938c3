//! Conversions between the values of the domain and the copies that workers and
//! workspace managers keep.
use vstd::prelude::*;

use crate::domain::{
    clone_text, ArtifactKind, ArtifactRef, Route, TaskId, TaskSpec, Usage, Workspace,
    WorkspaceKind, WorkspacePolicy,
};
use crate::money::Amount;
use crate::text::copy_strings;

verus! {

/// A worker's usage.
#[derive(Debug, Clone, Copy, PartialEq, Eq, Structural)]
pub struct WorkerUsage {
    pub input_tokens: u64,
    pub output_tokens: u64,
    pub cache_read_tokens: u64,
    pub cache_write_tokens: u64,
    pub cost_usd: Option<Amount>,
    pub wall_ms: u64,
}

/// What a worker may do in its checkout.
#[derive(Debug, Clone, Copy, PartialEq, Eq, Structural)]
pub enum WorkerPolicy {
    /// It may write.
    Isolated,
    ReadOnly,
}

/// A worker's workspace.
#[derive(Debug, PartialEq, Eq)]
pub struct WorkerWorkspace {
    pub root: String,
    pub kind: WorkspaceKind,
    pub base_rev: Option<String>,
}

/// A workspace manager's workspace.
#[derive(Debug, PartialEq, Eq)]
pub struct ManagerWorkspace {
    pub root: String,
    pub kind: WorkspaceKind,
    pub base_rev: Option<String>,
}

/// A workspace manager's policy.
#[derive(Debug, Clone, Copy, PartialEq, Eq, Structural)]
pub enum ManagerPolicy {
    Isolated,
    Shared,
    ReadOnly,
}

/// A worker's artifact: no checksum is the empty text, no size is zero.
#[derive(Debug, PartialEq, Eq)]
pub struct WorkerArtifact {
    pub id: u128,
    pub kind: ArtifactKind,
    pub uri: String,
    pub sha256: String,
    pub bytes: u64,
}

/// A workspace manager's artifact.
#[derive(Debug, PartialEq, Eq)]
pub struct ManagerArtifact {
    pub id: u128,
    pub kind: ArtifactKind,
    pub uri: String,
    pub sha256: Option<String>,
    pub bytes: Option<u64>,
}

/// A worker's route.
#[derive(Debug, PartialEq, Eq)]
pub struct WorkerRoute {
    pub worker: String,
    pub model: String,
    pub effort: Option<String>,
}

/// A worker's task.
#[derive(Debug, PartialEq, Eq)]
pub struct WorkerTaskSpec {
    pub title: String,
    pub instructions: String,
    pub inputs: Vec<WorkerArtifact>,
    pub acceptance_criteria: Vec<String>,
    pub depends_on: Vec<TaskId>,
    pub workspace_policy: WorkerPolicy,
    pub output_schema: Option<String>,
}

// ---------------------------------------------------------------------------
// Usage
// ---------------------------------------------------------------------------
impl WorkerUsage {
    pub open spec fn domain(self) -> Usage {
        Usage {
            input_tokens: self.input_tokens,
            output_tokens: self.output_tokens,
            cache_read_tokens: self.cache_read_tokens,
            cache_write_tokens: self.cache_write_tokens,
            cost_usd: self.cost_usd,
            wall_ms: self.wall_ms,
        }
    }
}

impl Usage {
    pub open spec fn worker(self) -> WorkerUsage {
        WorkerUsage {
            input_tokens: self.input_tokens,
            output_tokens: self.output_tokens,
            cache_read_tokens: self.cache_read_tokens,
            cache_write_tokens: self.cache_write_tokens,
            cost_usd: self.cost_usd,
            wall_ms: self.wall_ms,
        }
    }
}

/// The usage of a worker's copy.
pub fn usage_from_worker(usage: &WorkerUsage) -> (r: Usage)
    ensures
        r == usage.domain(),
{
    Usage {
        input_tokens: usage.input_tokens,
        output_tokens: usage.output_tokens,
        cache_read_tokens: usage.cache_read_tokens,
        cache_write_tokens: usage.cache_write_tokens,
        cost_usd: usage.cost_usd,
        wall_ms: usage.wall_ms,
    }
}

/// A worker's copy of the usage.
pub fn usage_to_worker(usage: &Usage) -> (r: WorkerUsage)
    ensures
        r == usage.worker(),
{
    WorkerUsage {
        input_tokens: usage.input_tokens,
        output_tokens: usage.output_tokens,
        cache_read_tokens: usage.cache_read_tokens,
        cache_write_tokens: usage.cache_write_tokens,
        cost_usd: usage.cost_usd,
        wall_ms: usage.wall_ms,
    }
}

// ---------------------------------------------------------------------------
// Workspaces
// ---------------------------------------------------------------------------
impl Workspace {
    pub open spec fn worker(self) -> WorkerWorkspace {
        WorkerWorkspace { root: self.root, kind: self.kind, base_rev: self.base_rev }
    }

    pub open spec fn manager(self) -> ManagerWorkspace {
        ManagerWorkspace { root: self.root, kind: self.kind, base_rev: self.base_rev }
    }
}

impl ManagerWorkspace {
    pub open spec fn domain(self) -> Workspace {
        Workspace { root: self.root, kind: self.kind, base_rev: self.base_rev }
    }
}

/// A worker's copy of the workspace.
pub fn workspace_to_worker(workspace: &Workspace) -> (r: WorkerWorkspace)
    ensures
        r == workspace.worker(),
{
    WorkerWorkspace {
        root: workspace.root.clone(),
        kind: workspace.kind.clone(),
        base_rev: clone_text(&workspace.base_rev),
    }
}

/// The workspace of a manager's copy.
pub fn workspace_from_manager(workspace: &ManagerWorkspace) -> (r: Workspace)
    ensures
        r == workspace.domain(),
{
    Workspace {
        root: workspace.root.clone(),
        kind: workspace.kind.clone(),
        base_rev: clone_text(&workspace.base_rev),
    }
}

/// A manager's copy of the workspace.
pub fn workspace_to_manager(workspace: &Workspace) -> (r: ManagerWorkspace)
    ensures
        r == workspace.manager(),
{
    ManagerWorkspace {
        root: workspace.root.clone(),
        kind: workspace.kind.clone(),
        base_rev: clone_text(&workspace.base_rev),
    }
}

impl WorkspacePolicy {
    pub open spec fn manager(self) -> ManagerPolicy {
        match self {
            WorkspacePolicy::Isolated => ManagerPolicy::Isolated,
            WorkspacePolicy::Shared => ManagerPolicy::Shared,
            WorkspacePolicy::ReadOnly => ManagerPolicy::ReadOnly,
        }
    }

    /// A shared workspace is a checkout that the worker may write.
    pub open spec fn worker(self) -> WorkerPolicy {
        match self {
            WorkspacePolicy::ReadOnly => WorkerPolicy::ReadOnly,
            _ => WorkerPolicy::Isolated,
        }
    }
}

/// The policy as the workspace manager spells it.
pub fn policy_to_manager(policy: WorkspacePolicy) -> (r: ManagerPolicy)
    ensures
        r == policy.manager(),
{
    match policy {
        WorkspacePolicy::Isolated => ManagerPolicy::Isolated,
        WorkspacePolicy::Shared => ManagerPolicy::Shared,
        WorkspacePolicy::ReadOnly => ManagerPolicy::ReadOnly,
    }
}

/// The policy as workers spell it.
pub fn policy_to_worker(policy: WorkspacePolicy) -> (r: WorkerPolicy)
    ensures
        r == policy.worker(),
{
    match policy {
        WorkspacePolicy::Isolated => WorkerPolicy::Isolated,
        WorkspacePolicy::Shared => WorkerPolicy::Isolated,
        WorkspacePolicy::ReadOnly => WorkerPolicy::ReadOnly,
    }
}

// ---------------------------------------------------------------------------
// Routes, artifacts, tasks
// ---------------------------------------------------------------------------
impl Route {
    pub open spec fn worker(self) -> WorkerRoute {
        WorkerRoute { worker: self.worker.name, model: self.model, effort: self.effort }
    }
}

/// A worker's copy of the route.
pub fn route_to_worker(route: &Route) -> (r: WorkerRoute)
    ensures
        r == route.worker(),
{
    WorkerRoute {
        worker: route.worker.name.clone(),
        model: route.model.clone(),
        effort: clone_text(&route.effort),
    }
}

impl WorkerArtifact {
    /// An empty checksum and a size of zero are not there.
    pub open spec fn domain(self) -> ArtifactRef {
        ArtifactRef {
            id: self.id,
            kind: self.kind,
            uri: self.uri,
            sha256: if self.sha256@.len() == 0 {
                None
            } else {
                Some(self.sha256)
            },
            bytes: if self.bytes == 0 {
                None
            } else {
                Some(self.bytes)
            },
        }
    }
}

/// A checksum or size that is not there is the empty text or zero.
pub open spec fn worker_artifact(a: ArtifactRef, w: WorkerArtifact) -> bool {
    &&& w.id == a.id
    &&& w.kind == a.kind
    &&& w.uri == a.uri
    &&& match a.sha256 {
        Some(sum) => w.sha256 == sum,
        None => w.sha256@.len() == 0,
    }
    &&& w.bytes == (match a.bytes {
        Some(n) => n,
        None => 0,
    })
}

/// The artifact of a worker's copy: an empty checksum and a size of zero are not
/// there.
pub fn artifact_from_worker(artifact: &WorkerArtifact) -> (r: ArtifactRef)
    ensures
        r == artifact.domain(),
{
    let sha256 = if artifact.sha256.as_str().unicode_len() == 0 {
        None
    } else {
        Some(artifact.sha256.clone())
    };
    let bytes = if artifact.bytes > 0 {
        Some(artifact.bytes)
    } else {
        None
    };
    ArtifactRef { id: artifact.id, kind: artifact.kind, uri: artifact.uri.clone(), sha256, bytes }
}

/// A worker's copy of the artifact.
pub fn artifact_to_worker(artifact: &ArtifactRef) -> (r: WorkerArtifact)
    ensures
        worker_artifact(*artifact, r),
{
    let sha256 = match &artifact.sha256 {
        Some(sum) => sum.clone(),
        None => {
            proof {
                reveal_strlit("");
            }
            let empty = "".to_owned();
            assert(empty@ =~= Seq::<char>::empty());
            empty
        },
    };
    let bytes = match artifact.bytes {
        Some(n) => n,
        None => 0,
    };
    WorkerArtifact { id: artifact.id, kind: artifact.kind, uri: artifact.uri.clone(), sha256, bytes }
}

impl ManagerArtifact {
    pub open spec fn domain(self) -> ArtifactRef {
        ArtifactRef {
            id: self.id,
            kind: self.kind,
            uri: self.uri,
            sha256: self.sha256,
            bytes: self.bytes,
        }
    }
}

/// The artifact of a manager's copy.
pub fn artifact_from_manager(artifact: &ManagerArtifact) -> (r: ArtifactRef)
    ensures
        r == artifact.domain(),
{
    ArtifactRef {
        id: artifact.id,
        kind: artifact.kind,
        uri: artifact.uri.clone(),
        sha256: clone_text(&artifact.sha256),
        bytes: artifact.bytes,
    }
}

/// What stands of a task in its worker's prompt.
pub open spec fn worker_spec(spec: TaskSpec, r: WorkerTaskSpec) -> bool {
    &&& r.title == spec.title
    &&& r.instructions == spec.instructions
    &&& r.inputs@.len() == spec.inputs@.len()
    &&& forall|i: int|
        0 <= i < spec.inputs@.len() ==> worker_artifact(#[trigger] spec.inputs@[i], r.inputs@[i])
    &&& r.acceptance_criteria@ == spec.acceptance_criteria@
    &&& r.depends_on@ == spec.depends_on@
    &&& r.workspace_policy == spec.workspace_policy.worker()
    &&& r.output_schema == spec.output_schema
}

/// A worker's copy of the task: what stands in its prompt.
pub fn spec_to_worker(spec: &TaskSpec) -> (r: WorkerTaskSpec)
    ensures
        worker_spec(*spec, r),
{
    let mut inputs: Vec<WorkerArtifact> = Vec::new();
    let mut i: usize = 0;
    while i < spec.inputs.len()
        invariant
            i <= spec.inputs@.len(),
            inputs@.len() == i,
            forall|k: int|
                0 <= k < i ==> worker_artifact(#[trigger] spec.inputs@[k], inputs@[k]),
        decreases spec.inputs@.len() - i,
    {
        inputs.push(artifact_to_worker(&spec.inputs[i]));
        i = i + 1;
    }
    let mut depends_on: Vec<TaskId> = Vec::new();
    let mut k: usize = 0;
    while k < spec.depends_on.len()
        invariant
            k <= spec.depends_on@.len(),
            depends_on@ == spec.depends_on@.subrange(0, k as int),
        decreases spec.depends_on@.len() - k,
    {
        depends_on.push(spec.depends_on[k]);
        k = k + 1;
        assert(depends_on@ =~= spec.depends_on@.subrange(0, k as int));
    }
    assert(spec.depends_on@.subrange(0, spec.depends_on@.len() as int) =~= spec.depends_on@);
    WorkerTaskSpec {
        title: spec.title.clone(),
        instructions: spec.instructions.clone(),
        inputs,
        acceptance_criteria: copy_strings(&spec.acceptance_criteria),
        depends_on,
        workspace_policy: policy_to_worker(spec.workspace_policy),
        output_schema: clone_text(&spec.output_schema),
    }
}

// ---------------------------------------------------------------------------
// Laws
// ---------------------------------------------------------------------------
/// A usage comes back unchanged from its worker's copy, and the copy from it.
pub proof fn law_usage_round_trips(usage: Usage, copy: WorkerUsage)
    ensures
        usage.worker().domain() == usage,
        copy.domain().worker() == copy,
{
}

/// A workspace comes back unchanged from its manager's copy, and the copy from it.
pub proof fn law_workspace_round_trips(workspace: Workspace, copy: ManagerWorkspace)
    ensures
        workspace.manager().domain() == workspace,
        copy.domain().manager() == copy,
{
}

/// An artifact comes back unchanged from its worker's copy, unless it has an
/// empty checksum or a size of zero.
pub proof fn law_artifact_round_trips(artifact: ArtifactRef, copy: WorkerArtifact)
    requires
        worker_artifact(artifact, copy),
        artifact.sha256 matches Some(sum) ==> sum@.len() > 0,
        artifact.bytes != Some(0u64),
    ensures
        copy.domain() == artifact,
{
}

/// Only a read-only policy takes the right to write from the worker.
pub proof fn law_only_read_only_forbids_writing(policy: WorkspacePolicy)
    ensures
        policy.worker() == WorkerPolicy::ReadOnly <==> policy == WorkspacePolicy::ReadOnly,
{
}

/// Each number of a usage stands in the same place of the worker's copy.
pub proof fn law_usage_is_copied_number_by_number(usage: Usage, copy: WorkerUsage)
    ensures
        usage.worker().input_tokens == usage.input_tokens,
        usage.worker().output_tokens == usage.output_tokens,
        usage.worker().cache_read_tokens == usage.cache_read_tokens,
        usage.worker().cache_write_tokens == usage.cache_write_tokens,
        usage.worker().wall_ms == usage.wall_ms,
        usage.worker().cost_usd == usage.cost_usd,
        copy.domain().input_tokens == copy.input_tokens,
        copy.domain().output_tokens == copy.output_tokens,
        copy.domain().cache_read_tokens == copy.cache_read_tokens,
        copy.domain().cache_write_tokens == copy.cache_write_tokens,
        copy.domain().wall_ms == copy.wall_ms,
        copy.domain().cost_usd == copy.cost_usd,
{
}

/// A workspace is the same place, of the same kind and at the same revision,
/// whoever keeps a copy.
pub proof fn law_a_copied_workspace_is_the_same_place(workspace: Workspace, copy: ManagerWorkspace)
    ensures
        workspace.worker().root == workspace.root && workspace.manager().root == workspace.root,
        workspace.worker().kind == workspace.kind && workspace.manager().kind == workspace.kind,
        workspace.worker().base_rev == workspace.base_rev && workspace.manager().base_rev
            == workspace.base_rev,
        copy.domain().root == copy.root && copy.domain().kind == copy.kind && copy.domain().base_rev
            == copy.base_rev,
{
}

/// A manager knows each policy by its own name; a worker may write in an isolated
/// and in a shared workspace.
pub proof fn law_policies_keep_their_meaning(policy: WorkspacePolicy)
    ensures
        policy == WorkspacePolicy::Isolated ==> policy.manager() == ManagerPolicy::Isolated
            && policy.worker() == WorkerPolicy::Isolated,
        policy == WorkspacePolicy::Shared ==> policy.manager() == ManagerPolicy::Shared
            && policy.worker() == WorkerPolicy::Isolated,
        policy == WorkspacePolicy::ReadOnly ==> policy.manager() == ManagerPolicy::ReadOnly
            && policy.worker() == WorkerPolicy::ReadOnly,
{
}

/// An artifact from a worker is the one that the worker named; an empty checksum
/// and a size of zero are not there, all others are.
pub proof fn law_a_workers_artifact_is_taken_over(copy: WorkerArtifact, artifact: ManagerArtifact)
    ensures
        copy.domain().id == copy.id && copy.domain().kind == copy.kind && copy.domain().uri
            == copy.uri,
        copy.sha256@.len() > 0 ==> copy.domain().sha256 == Some(copy.sha256),
        copy.sha256@.len() == 0 ==> copy.domain().sha256 is None,
        copy.bytes > 0 ==> copy.domain().bytes == Some(copy.bytes),
        copy.bytes == 0 ==> copy.domain().bytes is None,
        artifact.domain().id == artifact.id && artifact.domain().kind == artifact.kind
            && artifact.domain().uri == artifact.uri,
        artifact.domain().sha256 == artifact.sha256 && artifact.domain().bytes == artifact.bytes,
{
}

/// A worker reads the task as it was specified, and works on the route that was
/// chosen.
pub proof fn law_a_task_is_copied_for_its_worker(
    spec: TaskSpec,
    copy: WorkerTaskSpec,
    route: Route,
    i: int,
)
    requires
        worker_spec(spec, copy),
    ensures
        copy.title == spec.title && copy.instructions == spec.instructions,
        copy.acceptance_criteria@ == spec.acceptance_criteria@ && copy.depends_on@
            == spec.depends_on@,
        copy.output_schema == spec.output_schema,
        copy.workspace_policy == WorkerPolicy::ReadOnly <==> spec.workspace_policy
            == WorkspacePolicy::ReadOnly,
        copy.inputs@.len() == spec.inputs@.len(),
        0 <= i < spec.inputs@.len() ==> copy.inputs@[i].id == spec.inputs@[i].id && copy.inputs@[
            i
        ].kind == spec.inputs@[i].kind && copy.inputs@[i].uri == spec.inputs@[i].uri,
        route.worker().worker == route.worker.name && route.worker().model == route.model
            && route.worker().effort == route.effort,
{
    if 0 <= i < spec.inputs@.len() {
        assert(worker_artifact(spec.inputs@[i], copy.inputs@[i]));
    }
}

} // verus!
