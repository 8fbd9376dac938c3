//! The scheduler: which tasks may start, and how many at a time.
//!
//! A task is ready when it is pending with every dependency succeeded, or routed
//! (it has a route and only waits for a permit). A pending task with a dependency
//! that ended in any other way is blocked and is to be skipped, and so are the
//! tasks that depend on it. The bulkheads hold the global limit and the limit per
//! worker kind; a permit is held while an attempt runs.
use std::collections::BTreeMap;

use vstd::prelude::*;

use crate::domain::{Task, TaskId, TaskSpec, TaskStatus, WorkerKind, WorkspacePolicy};
use crate::maps::keys_of;

verus! {

broadcast use vstd::std_specs::btree::group_btree_axioms;

/// Reason recorded on a skipped task.
pub const DEPENDENCY_FAILED: &'static str = "dependency_failed";

/// Why a pending task cannot run yet.
#[derive(Debug, Clone, Copy, PartialEq, Eq, Structural)]
pub enum BlockedReason {
    /// At least one dependency has not finished.
    DependenciesPending,
    /// At least one dependency ended without success.
    DependencyFailed,
}

/// A pending task that can never run because a dependency failed.
#[derive(Debug, Clone, Copy, PartialEq, Eq, Structural)]
pub struct Blocked {
    /// The task to skip.
    pub task_id: TaskId,
    /// The dependency that broke it.
    pub dependency: TaskId,
}

// ---------------------------------------------------------------------------
// Model
// ---------------------------------------------------------------------------
/// The status ends a task without success.
pub open spec fn failed_terminal(status: TaskStatus) -> bool {
    status == TaskStatus::Cancelled || status == TaskStatus::Skipped || status
        == TaskStatus::Failed
}

/// The task is known and has this status.
pub open spec fn has_status(tasks: Map<TaskId, Task>, id: TaskId, status: TaskStatus) -> bool {
    tasks.contains_key(id) && tasks[id].status == status
}

/// The task is known and ended without success.
pub open spec fn has_failed(tasks: Map<TaskId, Task>, id: TaskId) -> bool {
    tasks.contains_key(id) && failed_terminal(tasks[id].status)
}

/// The spec is known and every dependency succeeded.
pub open spec fn satisfied(task: Task, tasks: Map<TaskId, Task>) -> bool {
    task.spec matches Some(spec) && forall|i: int|
        0 <= i < spec.depends_on@.len() ==> has_status(
            tasks,
            #[trigger] spec.depends_on@[i],
            TaskStatus::Succeeded,
        )
}

/// The task may be started now.
pub open spec fn is_ready(tasks: Map<TaskId, Task>, id: TaskId) -> bool {
    tasks.contains_key(id) && (tasks[id].status == TaskStatus::Routed || (tasks[id].status
        == TaskStatus::Pending && satisfied(tasks[id], tasks)))
}

/// The ready tasks, in the order of `order`.
pub open spec fn ready_of(order: Seq<TaskId>, tasks: Map<TaskId, Task>) -> Seq<TaskId> {
    order.filter(|id: TaskId| is_ready(tasks, id))
}

/// The dependency can never succeed: it is doomed or ended without success.
pub open spec fn broken(tasks: Map<TaskId, Task>, doomed: Set<TaskId>, dep: TaskId) -> bool {
    doomed.contains(dep) || has_failed(tasks, dep)
}

/// The first broken one of `deps`.
pub open spec fn first_broken(
    deps: Seq<TaskId>,
    tasks: Map<TaskId, Task>,
    doomed: Set<TaskId>,
) -> Option<TaskId>
    decreases deps.len(),
{
    if deps.len() == 0 {
        None
    } else {
        match first_broken(deps.drop_last(), tasks, doomed) {
            Some(d) => Some(d),
            None => if broken(tasks, doomed, deps.last()) {
                Some(deps.last())
            } else {
                None
            },
        }
    }
}

/// The dependency that breaks a pending task, where one does.
pub open spec fn breaker(
    tasks: Map<TaskId, Task>,
    doomed: Set<TaskId>,
    id: TaskId,
) -> Option<TaskId> {
    if has_status(tasks, id, TaskStatus::Pending) {
        match tasks[id].spec {
            Some(spec) => first_broken(spec.depends_on@, tasks, doomed),
            None => None,
        }
    } else {
        None
    }
}

/// The tasks that can never succeed, as far as the first `n` of the order show.
pub open spec fn doomed_of(order: Seq<TaskId>, tasks: Map<TaskId, Task>, n: nat) -> Set<TaskId>
    decreases n,
{
    if n == 0 {
        Set::empty()
    } else {
        let before = doomed_of(order, tasks, (n - 1) as nat);
        let id = order[n - 1];
        if has_failed(tasks, id) || breaker(tasks, before, id) is Some {
            before.insert(id)
        } else {
            before
        }
    }
}

/// The blocked ones of the first `n` tasks, in order, each with the first
/// dependency that breaks it.
pub open spec fn blocked_of(order: Seq<TaskId>, tasks: Map<TaskId, Task>, n: nat) -> Seq<Blocked>
    decreases n,
{
    if n == 0 {
        Seq::empty()
    } else {
        let before = blocked_of(order, tasks, (n - 1) as nat);
        let id = order[n - 1];
        match breaker(tasks, doomed_of(order, tasks, (n - 1) as nat), id) {
            Some(dependency) => before.push(Blocked { task_id: id, dependency }),
            None => before,
        }
    }
}

/// Why a task is not in the ready set; `None` where it is, or is not pending.
pub open spec fn reason_of(task: Task, tasks: Map<TaskId, Task>) -> Option<BlockedReason> {
    if task.status != TaskStatus::Pending || task.spec is None {
        None
    } else {
        let deps = task.spec->0.depends_on@;
        if exists|i: int| 0 <= i < deps.len() && has_failed(tasks, #[trigger] deps[i]) {
            Some(BlockedReason::DependencyFailed)
        } else if exists|i: int|
            0 <= i < deps.len() && !has_status(
                tasks,
                #[trigger] deps[i],
                TaskStatus::Succeeded,
            ) {
            Some(BlockedReason::DependenciesPending)
        } else {
            None
        }
    }
}

/// The two policies let their tasks run side by side: shared writers run with
/// readers only.
pub open spec fn policies_agree(a: WorkspacePolicy, b: WorkspacePolicy) -> bool {
    a == WorkspacePolicy::ReadOnly || b == WorkspacePolicy::ReadOnly || (a
        == WorkspacePolicy::Isolated && b == WorkspacePolicy::Isolated)
}

/// The two tasks may run side by side.
pub open spec fn compatible(a: TaskSpec, b: TaskSpec) -> bool {
    a.parallel_safe && b.parallel_safe && policies_agree(a.workspace_policy, b.workspace_policy)
}

// ---------------------------------------------------------------------------
// Ready set
// ---------------------------------------------------------------------------
fn is_failed_terminal(status: TaskStatus) -> (b: bool)
    ensures
        b == failed_terminal(status),
{
    match status {
        TaskStatus::Cancelled | TaskStatus::Skipped | TaskStatus::Failed => true,
        _ => false,
    }
}

fn dependencies_satisfied(task: &Task, tasks: &BTreeMap<TaskId, Task>) -> (b: bool)
    ensures
        b == satisfied(*task, tasks@),
{
    match &task.spec {
        Some(spec) => {
            let mut i: usize = 0;
            while i < spec.depends_on.len()
                invariant
                    i <= spec.depends_on@.len(),
                    task.spec == Some(*spec),
                    forall|k: int|
                        0 <= k < i ==> has_status(
                            tasks@,
                            #[trigger] spec.depends_on@[k],
                            TaskStatus::Succeeded,
                        ),
                decreases spec.depends_on@.len() - i,
            {
                let succeeded = match tasks.get(&spec.depends_on[i]) {
                    Some(dep) => dep.status == TaskStatus::Succeeded,
                    None => false,
                };
                if !succeeded {
                    assert(!has_status(
                        tasks@,
                        spec.depends_on@[i as int],
                        TaskStatus::Succeeded,
                    ));
                    return false;
                }
                i = i + 1;
            }
            true
        },
        None => false,
    }
}

/// The tasks that may be started now, in plan order.
pub fn ready_tasks(order: &Vec<TaskId>, tasks: &BTreeMap<TaskId, Task>) -> (r: Vec<TaskId>)
    ensures
        r@ == ready_of(order@, tasks@),
{
    let mut out: Vec<TaskId> = Vec::new();
    let mut i: usize = 0;
    while i < order.len()
        invariant
            i <= order@.len(),
            out@ == ready_of(order@.subrange(0, i as int), tasks@),
        decreases order@.len() - i,
    {
        let id: TaskId = order[i];
        let ready = match tasks.get(&id) {
            Some(task) => match task.status {
                TaskStatus::Routed => true,
                TaskStatus::Pending => dependencies_satisfied(task, tasks),
                _ => false,
            },
            None => false,
        };
        proof {
            let s = order@.subrange(0, i as int);
            assert(order@.subrange(0, i + 1) =~= s.push(id));
            assert(s.push(id).drop_last() =~= s);
            reveal(Seq::filter);
        }
        if ready {
            out.push(id);
        }
        i = i + 1;
    }
    assert(order@.subrange(0, order@.len() as int) =~= order@);
    out
}

fn find_broken(
    deps: &Vec<TaskId>,
    tasks: &BTreeMap<TaskId, Task>,
    doomed: &Vec<TaskId>,
) -> (r: Option<TaskId>)
    ensures
        r == first_broken(deps@, tasks@, doomed@.to_set()),
{
    let mut i: usize = 0;
    while i < deps.len()
        invariant
            i <= deps@.len(),
            first_broken(deps@.subrange(0, i as int), tasks@, doomed@.to_set()) is None,
        decreases deps@.len() - i,
    {
        let dep: TaskId = deps[i];
        let failed = match tasks.get(&dep) {
            Some(task) => is_failed_terminal(task.status),
            None => false,
        };
        let is_broken = failed || contains_id(doomed, dep);
        proof {
            let next = deps@.subrange(0, i + 1);
            assert(next.drop_last() =~= deps@.subrange(0, i as int));
            assert(next.last() == dep);
            assert(doomed@.to_set().contains(dep) == doomed@.contains(dep));
        }
        if is_broken {
            proof {
                lemma_first_broken_prefix(deps@, tasks@, doomed@.to_set(), i + 1);
            }
            return Some(dep);
        }
        i = i + 1;
    }
    assert(deps@.subrange(0, deps@.len() as int) =~= deps@);
    None
}

proof fn lemma_first_broken_prefix(
    deps: Seq<TaskId>,
    tasks: Map<TaskId, Task>,
    doomed: Set<TaskId>,
    n: int,
)
    requires
        0 <= n <= deps.len(),
        first_broken(deps.subrange(0, n), tasks, doomed) is Some,
    ensures
        first_broken(deps, tasks, doomed) == first_broken(deps.subrange(0, n), tasks, doomed),
    decreases deps.len(),
{
    if n == deps.len() {
        assert(deps.subrange(0, n) =~= deps);
    } else {
        let before = deps.drop_last();
        assert(before.subrange(0, n) =~= deps.subrange(0, n));
        lemma_first_broken_prefix(before, tasks, doomed, n);
    }
}

/// Whether `id` is one of `ids`.
pub fn contains_id(ids: &Vec<u128>, id: u128) -> (b: bool)
    ensures
        b == ids@.contains(id),
{
    let mut i: usize = 0;
    while i < ids.len()
        invariant
            i <= ids@.len(),
            forall|k: int| 0 <= k < i ==> ids@[k] != id,
        decreases ids@.len() - i,
    {
        if ids[i] == id {
            assert(ids@[i as int] == id);
            return true;
        }
        i = i + 1;
    }
    false
}

/// Pending tasks whose dependencies can never succeed.
pub fn blocked_tasks(order: &Vec<TaskId>, tasks: &BTreeMap<TaskId, Task>) -> (r: Vec<Blocked>)
    ensures
        r@ == blocked_of(order@, tasks@, order@.len()),
{
    let mut doomed: Vec<TaskId> = Vec::new();
    let mut blocked: Vec<Blocked> = Vec::new();
    let mut i: usize = 0;
    assert(doomed@.to_set() =~= Set::<TaskId>::empty());
    while i < order.len()
        invariant
            i <= order@.len(),
            doomed@.to_set() == doomed_of(order@, tasks@, i as nat),
            blocked@ == blocked_of(order@, tasks@, i as nat),
        decreases order@.len() - i,
    {
        let id: TaskId = order[i];
        let ghost before = doomed@;
        proof {
            assert(before.push(id).to_set() =~= before.to_set().insert(id)) by {
                assert forall|x: TaskId| before.push(id).to_set().contains(x)
                    == #[trigger] before.to_set().insert(id).contains(x) by {
                    if before.contains(x) {
                        let k = choose|k: int| 0 <= k < before.len() && before[k] == x;
                        assert(before.push(id)[k] == x);
                    }
                    if x == id {
                        assert(before.push(id)[before.len() as int] == x);
                    }
                }
            }
        }
        match tasks.get(&id) {
            Some(task) => {
                if task.status != TaskStatus::Pending {
                    if is_failed_terminal(task.status) {
                        doomed.push(id);
                    }
                } else if let Some(spec) = &task.spec {
                    if let Some(dependency) = find_broken(&spec.depends_on, tasks, &doomed) {
                        doomed.push(id);
                        blocked.push(Blocked { task_id: id, dependency });
                    }
                }
            },
            None => {},
        }
        i = i + 1;
    }
    blocked
}

/// Why the task is not in the ready set.
pub fn blocked_reason(task: &Task, tasks: &BTreeMap<TaskId, Task>) -> (r: Option<BlockedReason>)
    ensures
        r == reason_of(*task, tasks@),
{
    if task.status != TaskStatus::Pending {
        return None;
    }
    match &task.spec {
        Some(spec) => {
            let mut pending = false;
            let ghost deps = spec.depends_on@;
            let mut i: usize = 0;
            while i < spec.depends_on.len()
                invariant
                    i <= deps.len(),
                    deps == spec.depends_on@,
                    task.spec == Some(*spec),
                    task.status == TaskStatus::Pending,
                    forall|k: int| 0 <= k < i ==> !has_failed(tasks@, #[trigger] deps[k]),
                    pending == (exists|k: int|
                        0 <= k < i && !has_status(
                            tasks@,
                            #[trigger] deps[k],
                            TaskStatus::Succeeded,
                        )),
                decreases deps.len() - i,
            {
                let dep: TaskId = spec.depends_on[i];
                assert(dep == deps[i as int]);
                match tasks.get(&dep) {
                    Some(other) => {
                        if other.status == TaskStatus::Succeeded {
                        } else if is_failed_terminal(other.status) {
                            assert(has_failed(tasks@, deps[i as int]));
                            return Some(BlockedReason::DependencyFailed);
                        } else {
                            pending = true;
                            assert(!has_status(tasks@, deps[i as int], TaskStatus::Succeeded));
                        }
                    },
                    None => {
                        pending = true;
                        assert(!has_status(tasks@, deps[i as int], TaskStatus::Succeeded));
                    },
                }
                i = i + 1;
            }
            if pending {
                Some(BlockedReason::DependenciesPending)
            } else {
                None
            }
        },
        None => None,
    }
}

/// Number of tasks with an attempt in flight.
pub fn running_count(tasks: &BTreeMap<TaskId, Task>) -> (n: usize)
    ensures
        n == tasks@.dom().filter(|id: TaskId| tasks@[id].status.active()).len(),
{
    let keys = keys_of(tasks);
    let ghost active = |id: TaskId| tasks@[id].status.active();
    let mut n: usize = 0;
    let mut i: usize = 0;
    proof {
        assert(keys@.subrange(0, 0).to_set().filter(active) =~= Set::<TaskId>::empty());
    }
    while i < keys.len()
        invariant
            i <= keys@.len(),
            n <= i,
            crate::maps::ascending(keys@),
            forall|k: u128| keys@.contains(k) <==> tasks@.contains_key(k),
            active == (|id: TaskId| tasks@[id].status.active()),
            n == keys@.subrange(0, i as int).to_set().filter(active).len(),
            keys@.subrange(0, i as int).to_set().filter(active).finite(),
        decreases keys@.len() - i,
    {
        let id: TaskId = keys[i];
        let ghost before = keys@.subrange(0, i as int);
        let ghost next = keys@.subrange(0, i + 1);
        proof {
            assert(keys@.contains(id));
            assert(next =~= before.push(id));
            assert(!before.contains(id)) by {
                if before.contains(id) {
                    let k = choose|k: int| 0 <= k < before.len() && before[k] == id;
                    assert(keys@[k] < keys@[i as int]);
                }
            }
            assert forall|x: TaskId| next.to_set().contains(x) <==> (before.to_set().contains(x) || x
                == id) by {
                if before.contains(x) {
                    let k = choose|k: int| 0 <= k < before.len() && before[k] == x;
                    assert(next[k] == x);
                }
                if x == id {
                    assert(next[i as int] == x);
                }
            }
            if active(id) {
                assert(next.to_set().filter(active) =~= before.to_set().filter(active).insert(id));
            } else {
                assert(next.to_set().filter(active) =~= before.to_set().filter(active));
            }
        }
        match tasks.get(&id) {
            Some(task) => {
                if task.status.has_active_attempt() {
                    n = n + 1;
                }
            },
            None => {},
        }
        i = i + 1;
    }
    proof {
        assert(keys@.subrange(0, keys@.len() as int) =~= keys@);
        assert(keys@.to_set() =~= tasks@.dom());
    }
    n
}

/// Whether `candidate` may run while `running` do: shared writers are serialised,
/// and tasks that are not safe to run in parallel run alone.
pub fn may_run_concurrently(candidate: &TaskSpec, running: &Vec<&TaskSpec>) -> (b: bool)
    ensures
        b == (forall|i: int| 0 <= i < running@.len() ==> compatible(*candidate, *#[trigger] running@[i])),
{
    if running.len() == 0 {
        return true;
    }
    let mut all_safe = candidate.parallel_safe;
    let mut shared_running = false;
    let mut writer_running = false;
    let mut i: usize = 0;
    while i < running.len()
        invariant
            i <= running@.len(),
            all_safe == (candidate.parallel_safe && forall|k: int|
                0 <= k < i ==> (#[trigger] running@[k]).parallel_safe),
            shared_running == (exists|k: int|
                0 <= k < i && (#[trigger] running@[k]).workspace_policy == WorkspacePolicy::Shared),
            writer_running == (exists|k: int|
                0 <= k < i && (#[trigger] running@[k]).workspace_policy
                    != WorkspacePolicy::ReadOnly),
        decreases running@.len() - i,
    {
        let other = running[i];
        assert(other == running@[i as int]);
        if !other.parallel_safe {
            all_safe = false;
        }
        if other.workspace_policy == WorkspacePolicy::Shared {
            shared_running = true;
        }
        if other.workspace_policy != WorkspacePolicy::ReadOnly {
            writer_running = true;
        }
        i = i + 1;
    }
    if !all_safe {
        proof {
            if candidate.parallel_safe {
                let k = choose|k: int|
                    0 <= k < running@.len() && !(#[trigger] running@[k]).parallel_safe;
                assert(!compatible(*candidate, *running@[k]));
            } else {
                assert(!compatible(*candidate, *running@[0]));
            }
        }
        return false;
    }
    match candidate.workspace_policy {
        WorkspacePolicy::Shared => {
            proof {
                if writer_running {
                    let k = choose|k: int|
                        0 <= k < running@.len() && (#[trigger] running@[k]).workspace_policy
                            != WorkspacePolicy::ReadOnly;
                    assert(!compatible(*candidate, *running@[k]));
                }
            }
            !writer_running
        },
        WorkspacePolicy::Isolated => {
            proof {
                if shared_running {
                    let k = choose|k: int|
                        0 <= k < running@.len() && (#[trigger] running@[k]).workspace_policy
                            == WorkspacePolicy::Shared;
                    assert(!compatible(*candidate, *running@[k]));
                }
            }
            !shared_running
        },
        WorkspacePolicy::ReadOnly => true,
    }
}

// ---------------------------------------------------------------------------
// Bulkheads
// ---------------------------------------------------------------------------
/// Permits for one worker kind.
#[derive(Debug, PartialEq, Eq)]
pub struct KindPermits {
    pub worker: WorkerKind,
    pub limit: usize,
    pub free: usize,
}

/// Permits held while one attempt runs; handed back with [`Bulkheads::release`].
#[derive(Debug, PartialEq, Eq)]
pub struct Permits {
    /// Worker kind that the attempt runs on.
    pub worker: WorkerKind,
    /// Where the per-kind permit was taken; kinds without a limit of their own
    /// have none.
    pub slot: Option<usize>,
}

/// The global and the per-kind concurrency limits.
#[derive(Debug, PartialEq, Eq)]
pub struct Bulkheads {
    global_limit: usize,
    global_free: usize,
    per_kind: Vec<KindPermits>,
}

/// The state of one kind's permits.
pub struct KindView {
    pub worker: Seq<char>,
    pub limit: int,
    pub free: int,
}

/// The state of the bulkheads.
pub struct BulkheadsView {
    pub limit: int,
    pub free: int,
    pub kinds: Seq<KindView>,
}

impl View for Bulkheads {
    type V = BulkheadsView;

    closed spec fn view(&self) -> BulkheadsView {
        BulkheadsView {
            limit: self.global_limit as int,
            free: self.global_free as int,
            kinds: self.per_kind@.map_values(
                |k: KindPermits|
                    KindView { worker: k.worker.name@, limit: k.limit as int, free: k.free as int },
            ),
        }
    }
}

impl BulkheadsView {
    /// No limit is exceeded, and every limit lets at least one through.
    pub open spec fn wf(self) -> bool {
        &&& 0 <= self.free <= self.limit
        &&& 1 <= self.limit
        &&& forall|i: int|
            0 <= i < self.kinds.len() ==> 0 <= (#[trigger] self.kinds[i]).free
                <= self.kinds[i].limit && 1 <= self.kinds[i].limit
    }

    /// The slot is that of the worker kind: the first with its name, or none.
    pub open spec fn is_slot(self, worker: Seq<char>, slot: Option<int>) -> bool {
        match slot {
            Some(k) => {
                &&& 0 <= k < self.kinds.len()
                &&& self.kinds[k].worker == worker
                &&& forall|i: int| 0 <= i < k ==> (#[trigger] self.kinds[i]).worker != worker
            },
            None => forall|i: int|
                0 <= i < self.kinds.len() ==> (#[trigger] self.kinds[i]).worker != worker,
        }
    }

    /// A global permit and one of the slot's are free.
    pub open spec fn available(self, slot: Option<int>) -> bool {
        self.free > 0 && (slot matches Some(k) ==> self.kinds[k].free > 0)
    }

    /// One permit of each taken.
    pub open spec fn taken(self, slot: Option<int>) -> BulkheadsView {
        BulkheadsView {
            free: self.free - 1,
            kinds: match slot {
                Some(k) => self.kinds.update(
                    k,
                    KindView { free: self.kinds[k].free - 1, ..self.kinds[k] },
                ),
                None => self.kinds,
            },
            ..self
        }
    }

    /// One permit of each handed back.
    pub open spec fn returned(self, slot: Option<int>) -> BulkheadsView {
        BulkheadsView {
            free: self.free + 1,
            kinds: match slot {
                Some(k) => self.kinds.update(
                    k,
                    KindView { free: self.kinds[k].free + 1, ..self.kinds[k] },
                ),
                None => self.kinds,
            },
            ..self
        }
    }

    /// The permits are out: there is room to hand them back.
    pub open spec fn is_out(self, slot: Option<int>) -> bool {
        &&& self.free < self.limit
        &&& slot matches Some(k) ==> 0 <= k < self.kinds.len() && self.kinds[k].free
            < self.kinds[k].limit
    }
}

/// A limit of zero counts as one.
pub open spec fn permits_spec(limit: usize) -> usize {
    if limit == 0 {
        1
    } else {
        limit
    }
}

/// A limit of zero counts as one.
pub fn permits(limit: usize) -> (r: usize)
    ensures
        r == permits_spec(limit),
{
    if limit == 0 {
        1
    } else {
        limit
    }
}

impl Permits {
    pub open spec fn slot_spec(self) -> Option<int> {
        match self.slot {
            Some(k) => Some(k as int),
            None => None,
        }
    }
}

impl Bulkheads {
    /// Explicit limits.
    pub fn new(global: usize, per_kind: Vec<(WorkerKind, usize)>) -> (r: Bulkheads)
        ensures
            r@.wf(),
            r@.limit == permits_spec(global),
            r@.free == r@.limit,
            r@.kinds.len() == per_kind@.len(),
            forall|i: int|
                0 <= i < per_kind@.len() ==> (#[trigger] r@.kinds[i]) == (KindView {
                    worker: per_kind@[i].0.name@,
                    limit: permits_spec(per_kind@[i].1) as int,
                    free: permits_spec(per_kind@[i].1) as int,
                }),
    {
        let mut kinds: Vec<KindPermits> = Vec::new();
        let mut i: usize = 0;
        while i < per_kind.len()
            invariant
                i <= per_kind@.len(),
                kinds@.len() == i,
                forall|k: int|
                    0 <= k < i ==> (#[trigger] kinds@[k]).worker == per_kind@[k].0
                        && kinds@[k].limit == permits_spec(per_kind@[k].1) && kinds@[k].free
                        == kinds@[k].limit,
            decreases per_kind@.len() - i,
        {
            let limit: usize = permits(per_kind[i].1);
            kinds.push(KindPermits { worker: per_kind[i].0.clone(), limit, free: limit });
            i = i + 1;
        }
        let limit: usize = permits(global);
        Bulkheads { global_limit: limit, global_free: limit, per_kind: kinds }
    }

    /// Limits from the configuration: parallel tasks over all, and per worker kind.
    pub fn from_config(max_parallel_tasks: u32, per_worker_kind: Vec<(WorkerKind, u32)>) -> (r:
        Bulkheads)
        ensures
            r@.wf(),
            r@.limit == permits_spec(max_parallel_tasks as usize),
            r@.free == r@.limit,
            r@.kinds.len() == per_worker_kind@.len(),
            forall|i: int|
                0 <= i < per_worker_kind@.len() ==> (#[trigger] r@.kinds[i]) == (KindView {
                    worker: per_worker_kind@[i].0.name@,
                    limit: permits_spec(per_worker_kind@[i].1 as usize) as int,
                    free: permits_spec(per_worker_kind@[i].1 as usize) as int,
                }),
    {
        let mut limits: Vec<(WorkerKind, usize)> = Vec::new();
        let mut i: usize = 0;
        while i < per_worker_kind.len()
            invariant
                i <= per_worker_kind@.len(),
                limits@.len() == i,
                forall|k: int|
                    0 <= k < i ==> (#[trigger] limits@[k]).0 == per_worker_kind@[k].0
                        && limits@[k].1 == per_worker_kind@[k].1 as usize,
            decreases per_worker_kind@.len() - i,
        {
            limits.push((per_worker_kind[i].0.clone(), per_worker_kind[i].1 as usize));
            i = i + 1;
        }
        Bulkheads::new(max_parallel_tasks as usize, limits)
    }

    /// Free global permits.
    pub fn global_available(&self) -> (n: usize)
        ensures
            n == self@.free,
    {
        self.global_free
    }

    fn slot_of(&self, worker: &WorkerKind) -> (r: Option<usize>)
        ensures
            self@.is_slot(
                worker.name@,
                match r {
                    Some(k) => Some(k as int),
                    None => None,
                },
            ),
            r matches Some(k) ==> k < self.per_kind@.len(),
    {
        let mut i: usize = 0;
        while i < self.per_kind.len()
            invariant
                i <= self.per_kind@.len(),
                forall|k: int| 0 <= k < i ==> (#[trigger] self@.kinds[k]).worker != worker.name@,
            decreases self.per_kind@.len() - i,
        {
            assert(self@.kinds[i as int].worker == self.per_kind@[i as int].worker.name@);
            if self.per_kind[i].worker.name == worker.name {
                return Some(i);
            }
            i = i + 1;
        }
        None
    }

    /// Takes one global and one per-kind permit, or nothing where either is
    /// exhausted. Kinds without a limit of their own only count globally.
    pub fn try_acquire(&mut self, worker: &WorkerKind) -> (r: Option<Permits>)
        requires
            old(self)@.wf(),
        ensures
            final(self)@.wf(),
            match r {
                Some(p) => {
                    &&& p.worker == *worker
                    &&& old(self)@.is_slot(worker.name@, p.slot_spec())
                    &&& old(self)@.available(p.slot_spec())
                    &&& final(self)@ == old(self)@.taken(p.slot_spec())
                    &&& final(self)@.is_out(p.slot_spec())
                },
                None => final(self)@ == old(self)@ && exists|slot: Option<int>|
                    #[trigger] old(self)@.is_slot(worker.name@, slot) && !old(self)@.available(
                        slot,
                    ),
            },
    {
        let slot = self.slot_of(worker);
        let ghost gslot: Option<int> = match slot {
            Some(k) => Some(k as int),
            None => None,
        };
        let ghost before = self@;
        assert(before.is_slot(worker.name@, gslot));
        if self.global_free == 0 {
            return None;
        }
        if let Some(k) = slot {
            let free: usize = self.per_kind[k].free;
            assert(before.kinds[k as int].free == free);
            if free == 0 {
                return None;
            }
            let kind = KindPermits {
                worker: self.per_kind[k].worker.clone(),
                limit: self.per_kind[k].limit,
                free: free - 1,
            };
            self.per_kind.set(k, kind);
        }
        self.global_free = self.global_free - 1;
        let p = Permits { worker: worker.clone(), slot };
        proof {
            assert(self@.kinds =~= before.taken(gslot).kinds);
            assert forall|i: int| 0 <= i < self@.kinds.len() implies 0 <= (
            #[trigger] self@.kinds[i]).free <= self@.kinds[i].limit && 1 <= self@.kinds[i].limit by {
                assert(0 <= before.kinds[i].free <= before.kinds[i].limit);
            }
        }
        Some(p)
    }

    /// Hands permits back.
    pub fn release(&mut self, permits: Permits)
        requires
            old(self)@.wf(),
            old(self)@.is_out(permits.slot_spec()),
        ensures
            final(self)@.wf(),
            final(self)@ == old(self)@.returned(permits.slot_spec()),
    {
        let ghost before = self@;
        if let Some(k) = permits.slot {
            let free: usize = self.per_kind[k].free;
            assert(before.kinds[k as int].free == free);
            assert(before.kinds[k as int].limit == self.per_kind@[k as int].limit);
            let kind = KindPermits {
                worker: self.per_kind[k].worker.clone(),
                limit: self.per_kind[k].limit,
                free: free + 1,
            };
            self.per_kind.set(k, kind);
        }
        self.global_free = self.global_free + 1;
        proof {
            assert(self@.kinds =~= before.returned(permits.slot_spec()).kinds);
            assert forall|i: int| 0 <= i < self@.kinds.len() implies 0 <= (
            #[trigger] self@.kinds[i]).free <= self@.kinds[i].limit && 1 <= self@.kinds[i].limit by {
                assert(0 <= before.kinds[i].free <= before.kinds[i].limit);
            }
        }
    }
}

// ---------------------------------------------------------------------------
// Laws
// ---------------------------------------------------------------------------
proof fn lemma_doomed_never_succeeded(
    order: Seq<TaskId>,
    tasks: Map<TaskId, Task>,
    n: nat,
    id: TaskId,
)
    requires
        n <= order.len(),
        doomed_of(order, tasks, n).contains(id),
    ensures
        has_failed(tasks, id) || has_status(tasks, id, TaskStatus::Pending),
    decreases n,
{
    let before = doomed_of(order, tasks, (n - 1) as nat);
    if before.contains(id) {
        lemma_doomed_never_succeeded(order, tasks, (n - 1) as nat, id);
    }
}

proof fn lemma_first_broken(deps: Seq<TaskId>, tasks: Map<TaskId, Task>, doomed: Set<TaskId>)
    ensures
        match first_broken(deps, tasks, doomed) {
            Some(d) => broken(tasks, doomed, d) && exists|i: int|
                0 <= i < deps.len() && #[trigger] deps[i] == d,
            None => forall|i: int|
                0 <= i < deps.len() ==> !broken(tasks, doomed, #[trigger] deps[i]),
        },
    decreases deps.len(),
{
    if deps.len() > 0 {
        let before = deps.drop_last();
        lemma_first_broken(before, tasks, doomed);
        match first_broken(before, tasks, doomed) {
            Some(d) => {
                let i = choose|i: int| 0 <= i < before.len() && #[trigger] before[i] == d;
                assert(deps[i] == d);
            },
            None => {
                if broken(tasks, doomed, deps.last()) {
                    assert(deps[deps.len() - 1] == deps.last());
                } else {
                    assert forall|i: int| 0 <= i < deps.len() implies !broken(
                        tasks,
                        doomed,
                        #[trigger] deps[i],
                    ) by {
                        if i < before.len() {
                            assert(before[i] == deps[i]);
                        }
                    }
                }
            },
        }
    }
}

proof fn lemma_blocked_entry(order: Seq<TaskId>, tasks: Map<TaskId, Task>, n: nat, k: int)
    requires
        n <= order.len(),
        0 <= k < blocked_of(order, tasks, n).len(),
    ensures
        exists|i: int|
            0 <= i < n && #[trigger] order[i] == blocked_of(order, tasks, n)[k].task_id
                && breaker(tasks, doomed_of(order, tasks, i as nat), order[i]) == Some(
                blocked_of(order, tasks, n)[k].dependency,
            ),
    decreases n,
{
    let before = blocked_of(order, tasks, (n - 1) as nat);
    let now = blocked_of(order, tasks, n);
    if k < before.len() {
        lemma_blocked_entry(order, tasks, (n - 1) as nat, k);
        assert(now[k] == before[k]);
    } else {
        assert(order[n - 1] == now[k].task_id);
    }
}

/// A blocked task is never ready.
pub proof fn law_blocked_is_not_ready(order: Seq<TaskId>, tasks: Map<TaskId, Task>, k: int)
    requires
        0 <= k < blocked_of(order, tasks, order.len()).len(),
    ensures
        !is_ready(tasks, blocked_of(order, tasks, order.len())[k].task_id),
        !ready_of(order, tasks).contains(blocked_of(order, tasks, order.len())[k].task_id),
{
    let b = blocked_of(order, tasks, order.len())[k];
    lemma_blocked_entry(order, tasks, order.len(), k);
    let i = choose|i: int|
        0 <= i < order.len() && #[trigger] order[i] == b.task_id && breaker(
            tasks,
            doomed_of(order, tasks, i as nat),
            order[i],
        ) == Some(b.dependency);
    let doomed = doomed_of(order, tasks, i as nat);
    let deps = tasks[b.task_id].spec->0.depends_on@;
    lemma_first_broken(deps, tasks, doomed);
    let j = choose|j: int| 0 <= j < deps.len() && #[trigger] deps[j] == b.dependency;
    assert(deps[j] == b.dependency);
    if doomed.contains(b.dependency) {
        lemma_doomed_never_succeeded(order, tasks, i as nat, b.dependency);
    }
    assert(!has_status(tasks, deps[j], TaskStatus::Succeeded));
    assert(!is_ready(tasks, b.task_id));
    let ready = |id: TaskId| is_ready(tasks, id);
    assert forall|x: int| 0 <= x < ready_of(order, tasks).len() implies ready(
        #[trigger] ready_of(order, tasks)[x],
    ) by {
        order.lemma_filter_pred(ready, x);
    }
}

proof fn lemma_doomed_grows(order: Seq<TaskId>, tasks: Map<TaskId, Task>, n: nat, m: nat, id: TaskId)
    requires
        n <= m <= order.len(),
        doomed_of(order, tasks, n).contains(id),
    ensures
        doomed_of(order, tasks, m).contains(id),
    decreases m - n,
{
    if n < m {
        lemma_doomed_grows(order, tasks, n, (m - 1) as nat, id);
    }
}

proof fn lemma_blocked_has(order: Seq<TaskId>, tasks: Map<TaskId, Task>, i: int, n: nat)
    requires
        0 <= i < n <= order.len(),
        breaker(tasks, doomed_of(order, tasks, i as nat), order[i]) is Some,
    ensures
        exists|k: int|
            0 <= k < blocked_of(order, tasks, n).len() && (#[trigger] blocked_of(
                order,
                tasks,
                n,
            )[k]).task_id == order[i],
    decreases n,
{
    let now = blocked_of(order, tasks, n);
    if i == n - 1 {
        assert(now[now.len() - 1].task_id == order[i]);
    } else {
        lemma_blocked_has(order, tasks, i, (n - 1) as nat);
        let before = blocked_of(order, tasks, (n - 1) as nat);
        let k = choose|k: int|
            0 <= k < before.len() && (#[trigger] before[k]).task_id == order[i];
        assert(now[k].task_id == order[i]);
    }
}

/// Blocking is transitive along the plan order: a pending task with a dependency
/// that stands earlier in the order and failed, or is itself blocked, is blocked.
pub proof fn law_blocking_is_transitive(
    order: Seq<TaskId>,
    tasks: Map<TaskId, Task>,
    i: int,
    j: int,
    d: int,
)
    requires
        0 <= i < j < order.len(),
        has_status(tasks, order[j], TaskStatus::Pending),
        tasks[order[j]].spec matches Some(spec) && 0 <= d < spec.depends_on@.len()
            && spec.depends_on@[d] == order[i],
        has_failed(tasks, order[i]) || breaker(tasks, doomed_of(order, tasks, i as nat), order[i])
            is Some,
    ensures
        exists|k: int|
            0 <= k < blocked_of(order, tasks, order.len()).len() && (#[trigger] blocked_of(
                order,
                tasks,
                order.len(),
            )[k]).task_id == order[j],
{
    assert(doomed_of(order, tasks, (i + 1) as nat).contains(order[i]));
    lemma_doomed_grows(order, tasks, (i + 1) as nat, j as nat, order[i]);
    let deps = tasks[order[j]].spec->0.depends_on@;
    lemma_first_broken(deps, tasks, doomed_of(order, tasks, j as nat));
    assert(broken(tasks, doomed_of(order, tasks, j as nat), deps[d]));
    lemma_blocked_has(order, tasks, j, order.len());
}

/// Whether two tasks may run side by side does not depend on which came first.
pub proof fn law_compatibility_is_symmetric(a: TaskSpec, b: TaskSpec)
    ensures
        compatible(a, b) == compatible(b, a),
{
}

/// Two shared writers never run side by side, nor does a shared writer beside an
/// isolated one; a task that is not safe to run in parallel runs alone.
pub proof fn law_shared_writers_are_serialised(a: TaskSpec, b: TaskSpec)
    requires
        compatible(a, b),
    ensures
        a.workspace_policy == WorkspacePolicy::Shared ==> b.workspace_policy
            == WorkspacePolicy::ReadOnly,
        a.parallel_safe && b.parallel_safe,
{
}

/// Handing permits back undoes taking them.
pub proof fn law_release_undoes_acquire(b: BulkheadsView, slot: Option<int>)
    requires
        b.wf(),
        slot matches Some(k) ==> 0 <= k < b.kinds.len(),
    ensures
        b.taken(slot).returned(slot) == b,
{
    match slot {
        Some(k) => {
            assert(b.taken(slot).returned(slot).kinds =~= b.kinds);
        },
        None => {},
    }
}

/// A task that may be started waits for nothing: it is one of the plan's, and it
/// has its route, or it is pending and every task that it depends on is known and
/// has succeeded. A dependency that is pending, routed, running, waiting or ended
/// in any other way holds it back.
pub proof fn law_a_ready_task_waits_for_nothing(
    order: Seq<TaskId>,
    tasks: Map<TaskId, Task>,
    id: TaskId,
)
    requires
        ready_of(order, tasks).contains(id),
    ensures
        order.contains(id),
        tasks.contains_key(id),
        tasks[id].status == TaskStatus::Routed || tasks[id].status == TaskStatus::Pending,
        tasks[id].status == TaskStatus::Pending ==> tasks[id].spec is Some && forall|d: int|
            0 <= d < tasks[id].spec->0.depends_on@.len() ==> tasks.contains_key(
                #[trigger] tasks[id].spec->0.depends_on@[d],
            ) && tasks[tasks[id].spec->0.depends_on@[d]].status == TaskStatus::Succeeded,
{
    let ready = |id: TaskId| is_ready(tasks, id);
    let i = choose|i: int| 0 <= i < order.filter(ready).len() && order.filter(ready)[i] == id;
    order.lemma_filter_pred(ready, i);
    assert(ready(id));
    lemma_filtered_is_member(order, ready, id);
    if tasks[id].status == TaskStatus::Pending {
        let deps = tasks[id].spec->0.depends_on@;
        assert forall|d: int| 0 <= d < deps.len() implies tasks.contains_key(#[trigger] deps[d])
            && tasks[deps[d]].status == TaskStatus::Succeeded by {
            assert(has_status(tasks, deps[d], TaskStatus::Succeeded));
        }
    }
}

proof fn lemma_filtered_is_member(s: Seq<TaskId>, keep: spec_fn(TaskId) -> bool, x: TaskId)
    requires
        s.filter(keep).contains(x),
    ensures
        s.contains(x),
    decreases s.len(),
{
    reveal(Seq::filter);
    if s.len() > 0 {
        let rest = s.drop_last();
        let kept = s.filter(keep);
        let i = choose|i: int| 0 <= i < kept.len() && kept[i] == x;
        if i < rest.filter(keep).len() {
            assert(rest.filter(keep)[i] == x);
            lemma_filtered_is_member(rest, keep, x);
            let k = choose|k: int| 0 <= k < rest.len() && rest[k] == x;
            assert(s[k] == x);
        } else {
            assert(s[s.len() - 1] == x);
        }
    }
}

/// A task of the plan that waits for nothing may be started: one with a route, and
/// a pending one whose dependencies have all succeeded, such as one without any.
pub proof fn law_a_task_that_waits_for_nothing_is_ready(
    order: Seq<TaskId>,
    tasks: Map<TaskId, Task>,
    id: TaskId,
)
    requires
        order.contains(id),
        tasks.contains_key(id),
        tasks[id].status == TaskStatus::Routed || (tasks[id].status == TaskStatus::Pending && (
        tasks[id].spec matches Some(spec) && forall|d: int|
            0 <= d < spec.depends_on@.len() ==> tasks.contains_key(#[trigger] spec.depends_on@[d])
                && tasks[spec.depends_on@[d]].status == TaskStatus::Succeeded)),
    ensures
        ready_of(order, tasks).contains(id),
{
    let ready = |id: TaskId| is_ready(tasks, id);
    let i = choose|i: int| 0 <= i < order.len() && order[i] == id;
    assert(ready(order[i]));
    order.lemma_filter_contains(ready, i);
}

/// The ready tasks come in plan order: of two of them, the one that stands first
/// in the plan is first.
pub proof fn law_ready_tasks_come_in_plan_order(
    order: Seq<TaskId>,
    tasks: Map<TaskId, Task>,
    a: int,
    b: int,
)
    requires
        0 <= a < b < order.len(),
        ready_of(order, tasks).contains(order[a]),
        ready_of(order, tasks).contains(order[b]),
    ensures
        exists|i: int, j: int|
            0 <= i < j < ready_of(order, tasks).len() && #[trigger] ready_of(order, tasks)[i]
                == order[a] && #[trigger] ready_of(order, tasks)[j] == order[b],
{
    let ready = |id: TaskId| is_ready(tasks, id);
    let all = order.filter(ready);
    let x = choose|x: int| 0 <= x < all.len() && all[x] == order[a];
    order.lemma_filter_pred(ready, x);
    let y = choose|y: int| 0 <= y < all.len() && all[y] == order[b];
    order.lemma_filter_pred(ready, y);
    let left = order.subrange(0, b);
    let right = order.subrange(b, order.len() as int);
    assert(order =~= left + right);
    Seq::filter_distributes_over_add(left, right, ready);
    assert(left[a] == order[a]);
    left.lemma_filter_contains(ready, a);
    assert(right[0] == order[b]);
    right.lemma_filter_contains(ready, 0);
    let i = choose|i: int| 0 <= i < left.filter(ready).len() && left.filter(ready)[i] == order[a];
    let j = choose|j: int| 0 <= j < right.filter(ready).len() && right.filter(ready)[j] == order[b];
    assert(all[i] == order[a]);
    assert(all[left.filter(ready).len() + j] == order[b]);
    assert(ready_of(order, tasks)[i] == order[a]);
    assert(ready_of(order, tasks)[left.filter(ready).len() + j] == order[b]);
}

/// A task is skipped only for cause: it is pending, and the dependency that is
/// named is one of its own, which was cancelled, was skipped, failed, or is itself
/// to be skipped.
pub proof fn law_a_blocked_task_can_never_run(order: Seq<TaskId>, tasks: Map<TaskId, Task>, k: int)
    requires
        0 <= k < blocked_of(order, tasks, order.len()).len(),
    ensures
        ({
            let all = blocked_of(order, tasks, order.len());
            let b = all[k];
            &&& order.contains(b.task_id)
            &&& tasks.contains_key(b.task_id) && tasks[b.task_id].status == TaskStatus::Pending
            &&& tasks[b.task_id].spec matches Some(spec) && spec.depends_on@.contains(b.dependency)
            &&& (tasks.contains_key(b.dependency) && (tasks[b.dependency].status
                == TaskStatus::Failed || tasks[b.dependency].status == TaskStatus::Cancelled
                || tasks[b.dependency].status == TaskStatus::Skipped)) || (exists|j: int|
                0 <= j < all.len() && (#[trigger] all[j]).task_id == b.dependency)
        }),
{
    let all = blocked_of(order, tasks, order.len());
    let b = all[k];
    lemma_blocked_entry(order, tasks, order.len(), k);
    let i = choose|i: int|
        0 <= i < order.len() && #[trigger] order[i] == b.task_id && breaker(
            tasks,
            doomed_of(order, tasks, i as nat),
            order[i],
        ) == Some(b.dependency);
    let doomed = doomed_of(order, tasks, i as nat);
    let deps = tasks[b.task_id].spec->0.depends_on@;
    lemma_first_broken(deps, tasks, doomed);
    if !has_failed(tasks, b.dependency) {
        lemma_doomed_is_blocked(order, tasks, i as nat, b.dependency);
        let m = choose|m: int|
            0 <= m < i && #[trigger] order[m] == b.dependency && breaker(
                tasks,
                doomed_of(order, tasks, m as nat),
                order[m],
            ) is Some;
        lemma_blocked_has(order, tasks, m, order.len());
    }
}

proof fn lemma_doomed_is_blocked(
    order: Seq<TaskId>,
    tasks: Map<TaskId, Task>,
    n: nat,
    id: TaskId,
)
    requires
        n <= order.len(),
        doomed_of(order, tasks, n).contains(id),
        !has_failed(tasks, id),
    ensures
        exists|m: int|
            0 <= m < n && #[trigger] order[m] == id && breaker(
                tasks,
                doomed_of(order, tasks, m as nat),
                order[m],
            ) is Some,
    decreases n,
{
    let before = doomed_of(order, tasks, (n - 1) as nat);
    if before.contains(id) {
        lemma_doomed_is_blocked(order, tasks, (n - 1) as nat, id);
    } else {
        assert(order[n - 1] == id);
    }
}

/// A pending task with a dependency that failed, was cancelled or was skipped is
/// to be skipped, wherever it stands in the plan.
pub proof fn law_a_failed_dependency_blocks(
    order: Seq<TaskId>,
    tasks: Map<TaskId, Task>,
    i: int,
    d: int,
)
    requires
        0 <= i < order.len(),
        tasks.contains_key(order[i]),
        tasks[order[i]].status == TaskStatus::Pending,
        tasks[order[i]].spec is Some,
        0 <= d < tasks[order[i]].spec->0.depends_on@.len(),
        tasks.contains_key(tasks[order[i]].spec->0.depends_on@[d]),
        ({
            let status = tasks[tasks[order[i]].spec->0.depends_on@[d]].status;
            status == TaskStatus::Failed || status == TaskStatus::Cancelled || status
                == TaskStatus::Skipped
        }),
    ensures
        exists|k: int|
            0 <= k < blocked_of(order, tasks, order.len()).len() && (#[trigger] blocked_of(
                order,
                tasks,
                order.len(),
            )[k]).task_id == order[i],
        reason_of(tasks[order[i]], tasks) == Some(BlockedReason::DependencyFailed),
{
    let deps = tasks[order[i]].spec->0.depends_on@;
    let doomed = doomed_of(order, tasks, i as nat);
    assert(has_failed(tasks, deps[d]));
    lemma_first_broken(deps, tasks, doomed);
    assert(broken(tasks, doomed, deps[d]));
    lemma_blocked_has(order, tasks, i, order.len());
}

/// Why a pending task with a spec is held back: a dependency failed, or one has
/// not succeeded yet; a task that is held back by neither is ready, and one that
/// is not pending is never told a reason.
pub proof fn law_a_task_is_held_back_for_a_reason(tasks: Map<TaskId, Task>, id: TaskId)
    requires
        tasks.contains_key(id),
    ensures
        tasks[id].status != TaskStatus::Pending ==> reason_of(tasks[id], tasks) is None,
        tasks[id].status == TaskStatus::Pending && tasks[id].spec is Some ==> (reason_of(
            tasks[id],
            tasks,
        ) is None <==> is_ready(tasks, id)),
        reason_of(tasks[id], tasks) == Some(BlockedReason::DependencyFailed) ==> (exists|d: int|
            0 <= d < tasks[id].spec->0.depends_on@.len() && tasks.contains_key(
                #[trigger] tasks[id].spec->0.depends_on@[d],
            ) && {
                let status = tasks[tasks[id].spec->0.depends_on@[d]].status;
                status == TaskStatus::Failed || status == TaskStatus::Cancelled || status
                    == TaskStatus::Skipped
            }),
        reason_of(tasks[id], tasks) == Some(BlockedReason::DependenciesPending) ==> (exists|
            d: int,
        |
            0 <= d < tasks[id].spec->0.depends_on@.len() && !(tasks.contains_key(
                #[trigger] tasks[id].spec->0.depends_on@[d],
            ) && tasks[tasks[id].spec->0.depends_on@[d]].status == TaskStatus::Succeeded)),
{
    if tasks[id].status == TaskStatus::Pending && tasks[id].spec is Some {
        let deps = tasks[id].spec->0.depends_on@;
        if exists|i: int| 0 <= i < deps.len() && has_failed(tasks, #[trigger] deps[i]) {
            let i = choose|i: int| 0 <= i < deps.len() && has_failed(tasks, #[trigger] deps[i]);
            assert(!has_status(tasks, deps[i], TaskStatus::Succeeded));
            assert(tasks.contains_key(deps[i]));
        } else if exists|i: int|
            0 <= i < deps.len() && !has_status(tasks, #[trigger] deps[i], TaskStatus::Succeeded) {
            let i = choose|i: int|
                0 <= i < deps.len() && !has_status(
                    tasks,
                    #[trigger] deps[i],
                    TaskStatus::Succeeded,
                );
            assert(!(tasks.contains_key(deps[i]) && tasks[deps[i]].status
                == TaskStatus::Succeeded));
        }
    }
}

/// Two tasks may run side by side exactly where both are safe to run in parallel
/// and either one of them only reads or both work in checkouts of their own.
pub proof fn law_who_may_run_side_by_side(a: TaskSpec, b: TaskSpec)
    ensures
        !a.parallel_safe || !b.parallel_safe ==> !compatible(a, b),
        a.parallel_safe && b.parallel_safe && a.workspace_policy == WorkspacePolicy::ReadOnly
            ==> compatible(a, b),
        a.parallel_safe && b.parallel_safe && b.workspace_policy == WorkspacePolicy::ReadOnly
            ==> compatible(a, b),
        a.parallel_safe && b.parallel_safe && a.workspace_policy == WorkspacePolicy::Isolated
            && b.workspace_policy == WorkspacePolicy::Isolated ==> compatible(a, b),
        a.workspace_policy == WorkspacePolicy::Shared && b.workspace_policy
            == WorkspacePolicy::Shared ==> !compatible(a, b),
        a.workspace_policy == WorkspacePolicy::Shared && b.workspace_policy
            == WorkspacePolicy::Isolated ==> !compatible(a, b),
        a.workspace_policy == WorkspacePolicy::Isolated && b.workspace_policy
            == WorkspacePolicy::Shared ==> !compatible(a, b),
{
}

/// A permit is handed out exactly while one is free over all and, where the kind
/// has a limit of its own, one of that kind; a limit of zero lets one through.
pub proof fn law_limits_are_kept(b: BulkheadsView, slot: Option<int>, limit: usize)
    ensures
        b.free <= 0 ==> !b.available(slot),
        slot matches Some(k) ==> b.kinds[k].free <= 0 ==> !b.available(slot),
        slot matches Some(k) ==> b.free > 0 && b.kinds[k].free > 0 ==> b.available(slot),
        slot is None && b.free > 0 ==> b.available(slot),
        limit > 0 ==> permits_spec(limit) == limit,
        permits_spec(0) == 1,
{
}

/// Taking permits lowers the free ones by one, over all and for the kind, and
/// leaves every limit and every other kind alone.
pub proof fn law_a_permit_counts_once(b: BulkheadsView, slot: Option<int>, other: int)
    requires
        slot matches Some(k) ==> 0 <= k < b.kinds.len(),
        0 <= other < b.kinds.len(),
    ensures
        b.taken(slot).free == b.free - 1,
        b.taken(slot).limit == b.limit,
        b.taken(slot).kinds.len() == b.kinds.len(),
        b.taken(slot).kinds[other].limit == b.kinds[other].limit,
        b.taken(slot).kinds[other].worker == b.kinds[other].worker,
        slot == Some(other) ==> b.taken(slot).kinds[other].free == b.kinds[other].free - 1,
        slot != Some(other) ==> b.taken(slot).kinds[other].free == b.kinds[other].free,
{
}

/// A worker kind has one place for its permits.
pub proof fn law_a_kind_has_one_slot(
    b: BulkheadsView,
    worker: Seq<char>,
    one: Option<int>,
    two: Option<int>,
)
    requires
        b.is_slot(worker, one),
        b.is_slot(worker, two),
    ensures
        one == two,
        one matches Some(k) ==> b.kinds[k].worker == worker,
        one is None ==> forall|i: int|
            0 <= i < b.kinds.len() ==> (#[trigger] b.kinds[i]).worker != worker,
{
    match (one, two) {
        (Some(i), Some(j)) => {
            if i < j {
                assert(b.kinds[i].worker != worker);
            } else if j < i {
                assert(b.kinds[j].worker != worker);
            }
        },
        (Some(i), None) => {
            assert(b.kinds[i].worker != worker);
        },
        (None, Some(j)) => {
            assert(b.kinds[j].worker != worker);
        },
        (None, None) => {},
    }
}

} // verus!
