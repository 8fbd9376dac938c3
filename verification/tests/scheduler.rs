use std::collections::BTreeMap;

use kevin_orchestrator::domain::{
    Budget, Task, TaskId, TaskKind, TaskSpec, TaskStatus, Usage, WorkerKind, WorkspacePolicy,
};
use kevin_orchestrator::scheduler::{
    blocked_reason, blocked_tasks, may_run_concurrently, permits, ready_tasks, running_count,
    BlockedReason, Bulkheads,
};

fn unlimited() -> Budget {
    Budget {
        max_usd: None,
        max_tokens: None,
        max_wall: None,
        max_attempts: 3,
        max_parallel: 4,
    }
}

fn task(spec: TaskSpec) -> Task {
    Task {
        status: TaskStatus::Pending,
        kind: Some(TaskKind::Implement),
        spec: Some(spec),
        budget: unlimited(),
        attempts_used: 0,
        active_attempt: None,
        last_attempt: None,
        usage: Usage::zero(),
        artifacts: vec![],
        can_retry: false,
        terminal: false,
    }
}

fn finish(task: &mut Task, status: TaskStatus) {
    task.status = status;
    task.terminal = true;
}

fn fake() -> WorkerKind {
    WorkerKind { name: "fake".to_owned() }
}

#[test]
fn ready_set_follows_dependencies_in_plan_order() {
    let a: TaskId = 1;
    let b: TaskId = 2;
    let mut tasks = BTreeMap::new();
    tasks.insert(a, task(TaskSpec::new("a", "do a")));
    let mut spec_b = TaskSpec::new("b", "do b");
    spec_b.depends_on = vec![a];
    tasks.insert(b, task(spec_b));
    let order = vec![a, b];
    assert_eq!(ready_tasks(&order, &tasks), vec![a]);
    finish(tasks.get_mut(&a).expect("a"), TaskStatus::Succeeded);
    assert_eq!(ready_tasks(&order, &tasks), vec![b]);
}

#[test]
fn dependents_of_a_failed_task_are_blocked_transitively() {
    let a: TaskId = 1;
    let b: TaskId = 2;
    let c: TaskId = 3;
    let mut tasks = BTreeMap::new();
    tasks.insert(a, task(TaskSpec::new("a", "do a")));
    let mut spec_b = TaskSpec::new("b", "do b");
    spec_b.depends_on = vec![a];
    tasks.insert(b, task(spec_b));
    let mut spec_c = TaskSpec::new("c", "do c");
    spec_c.depends_on = vec![b];
    tasks.insert(c, task(spec_c));
    finish(tasks.get_mut(&a).expect("a"), TaskStatus::Cancelled);
    let order = vec![a, b, c];
    let blocked = blocked_tasks(&order, &tasks);
    assert_eq!(blocked.len(), 2);
    assert_eq!(blocked[0].task_id, b);
    assert_eq!(blocked[1].task_id, c);
    assert!(ready_tasks(&order, &tasks).is_empty());
}

#[test]
fn shared_workspace_tasks_are_serialised() {
    let mut shared = TaskSpec::new("s", "shared");
    shared.workspace_policy = WorkspacePolicy::Shared;
    let isolated = TaskSpec::new("i", "isolated");
    let mut read_only = TaskSpec::new("r", "read");
    read_only.workspace_policy = WorkspacePolicy::ReadOnly;
    assert!(may_run_concurrently(&shared, &vec![]));
    assert!(!may_run_concurrently(&shared, &vec![&isolated]));
    assert!(!may_run_concurrently(&isolated, &vec![&shared]));
    assert!(may_run_concurrently(&isolated, &vec![&isolated]));
    assert!(may_run_concurrently(&shared, &vec![&read_only]));
    assert!(may_run_concurrently(&read_only, &vec![&shared]));
}

#[test]
fn non_parallel_safe_tasks_run_alone() {
    let mut lonely = TaskSpec::new("l", "alone");
    lonely.parallel_safe = false;
    let other = TaskSpec::new("o", "other");
    assert!(may_run_concurrently(&lonely, &vec![]));
    assert!(!may_run_concurrently(&lonely, &vec![&other]));
    assert!(!may_run_concurrently(&other, &vec![&lonely]));
}

#[test]
fn bulkheads_bound_global_and_per_kind_concurrency() {
    let mut bulkheads = Bulkheads::new(2, vec![(fake(), 1)]);
    let first = bulkheads.try_acquire(&fake()).expect("first");
    assert!(bulkheads.try_acquire(&fake()).is_none());
    bulkheads.release(first);
    assert!(bulkheads.try_acquire(&fake()).is_some());
}

#[test]
fn global_bulkhead_is_the_tighter_bound() {
    let mut bulkheads = Bulkheads::new(1, vec![(fake(), 8)]);
    let held = bulkheads.try_acquire(&fake()).expect("first");
    assert_eq!(bulkheads.global_available(), 0);
    assert!(bulkheads.try_acquire(&fake()).is_none());
    bulkheads.release(held);
    assert_eq!(bulkheads.global_available(), 1);
}

#[test]
fn a_routed_task_is_ready_whatever_it_depends_on() {
    let mut spec = TaskSpec::new("b", "do b");
    spec.depends_on = vec![9];
    let mut routed = task(spec);
    routed.status = TaskStatus::Routed;
    let mut tasks = BTreeMap::new();
    tasks.insert(2, routed);
    assert_eq!(ready_tasks(&vec![2], &tasks), vec![2]);
}

#[test]
fn a_blocked_task_says_why() {
    let mut tasks = BTreeMap::new();
    tasks.insert(1, task(TaskSpec::new("a", "do a")));
    let mut spec = TaskSpec::new("b", "do b");
    spec.depends_on = vec![1];
    let b = task(spec);
    assert_eq!(blocked_reason(&b, &tasks), Some(BlockedReason::DependenciesPending));
    finish(tasks.get_mut(&1).expect("a"), TaskStatus::Failed);
    assert_eq!(blocked_reason(&b, &tasks), Some(BlockedReason::DependencyFailed));
    finish(tasks.get_mut(&1).expect("a"), TaskStatus::Succeeded);
    assert_eq!(blocked_reason(&b, &tasks), None);
    assert_eq!(running_count(&tasks), 0);
}

#[test]
fn limits_never_fall_to_zero() {
    assert_eq!(permits(0), 1);
    let mut bulkheads = Bulkheads::from_config(0, vec![(fake(), 0)]);
    assert_eq!(bulkheads.global_available(), 1);
    assert!(bulkheads.try_acquire(&fake()).is_some());
}
