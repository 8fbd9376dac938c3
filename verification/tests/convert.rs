use kevin_orchestrator::convert::{
    artifact_from_worker, artifact_to_worker, policy_to_manager, policy_to_worker, spec_to_worker,
    usage_from_worker, usage_to_worker, workspace_from_manager, workspace_to_manager,
    workspace_to_worker, ManagerPolicy, WorkerArtifact, WorkerPolicy,
};
use kevin_orchestrator::domain::{
    ArtifactKind, ArtifactRef, TaskSpec, Usage, Workspace, WorkspaceKind, WorkspacePolicy,
};
use kevin_orchestrator::money::Amount;

#[test]
fn usage_round_trips_through_the_worker_copy() {
    let usage = Usage {
        input_tokens: 10,
        output_tokens: 4,
        cache_read_tokens: 1,
        cache_write_tokens: 2,
        cost_usd: Some(Amount { mantissa: 5, scale: 2 }),
        wall_ms: 42,
    };
    assert_eq!(usage_from_worker(&usage_to_worker(&usage)), usage);
}

#[test]
fn workspace_round_trips_through_both_copies() {
    let workspace = Workspace {
        root: "/tmp/ws".to_owned(),
        kind: WorkspaceKind::GitWorktree { branch: "kevin/abc/t".to_owned() },
        base_rev: Some("deadbeef".to_owned()),
    };
    assert_eq!(workspace_from_manager(&workspace_to_manager(&workspace)), workspace);
    assert_eq!(workspace_to_worker(&workspace).root, workspace.root.clone());
}

#[test]
fn shared_policy_is_a_writable_checkout_for_the_worker() {
    assert_eq!(policy_to_worker(WorkspacePolicy::Shared), WorkerPolicy::Isolated);
    assert_eq!(policy_to_worker(WorkspacePolicy::ReadOnly), WorkerPolicy::ReadOnly);
    assert_eq!(policy_to_manager(WorkspacePolicy::Shared), ManagerPolicy::Shared);
}

#[test]
fn an_artifact_round_trips_through_the_worker_copy() {
    let artifact = ArtifactRef {
        id: 7,
        kind: ArtifactKind::Diff,
        uri: "file:///d".to_owned(),
        sha256: Some("ab".to_owned()),
        bytes: Some(3),
    };
    assert_eq!(artifact_from_worker(&artifact_to_worker(&artifact)), artifact);
    let bare = WorkerArtifact {
        id: 7,
        kind: ArtifactKind::Diff,
        uri: "u".to_owned(),
        sha256: String::new(),
        bytes: 0,
    };
    let read = artifact_from_worker(&bare);
    assert_eq!(read.sha256, None);
    assert_eq!(read.bytes, None);
}

#[test]
fn a_spec_keeps_what_stands_in_the_prompt() {
    let mut spec = TaskSpec::new("t", "do it");
    spec.depends_on = vec![3, 1];
    spec.acceptance_criteria = vec!["c".to_owned()];
    spec.workspace_policy = WorkspacePolicy::Shared;
    let copy = spec_to_worker(&spec);
    assert_eq!(copy.title, "t");
    assert_eq!(copy.instructions, "do it");
    assert_eq!(copy.depends_on, vec![3, 1]);
    assert_eq!(copy.acceptance_criteria, vec!["c".to_owned()]);
    assert_eq!(copy.workspace_policy, WorkerPolicy::Isolated);
    assert!(copy.inputs.is_empty());
}
