//! The integrator: merges the succeeded branches, runs the repository's checks
//! and reports what a human must look at.
use vstd::prelude::*;

use super::Role;
use crate::domain::{ArtifactKind, TaskKind, WorkspacePolicy};

verus! {

/// How the integration ended.
#[derive(Debug, Clone, Copy, PartialEq, Eq, Structural)]
pub enum IntegrationStatus {
    /// Everything that could land, landed.
    Integrated,
    /// Merge conflicts need a decision.
    Conflicts,
    /// It failed for another reason.
    Failed,
    /// There was nothing to integrate.
    Skipped,
}

/// A conflict that the integrator refused to resolve on its own.
#[derive(Debug, PartialEq, Eq)]
pub struct IntegrationConflict {
    /// Branch that could not be merged.
    pub branch: String,
    pub files: Vec<String>,
    pub description: String,
}

/// One declared check, run after the merge.
#[derive(Debug, PartialEq, Eq)]
pub struct IntegrationCheck {
    pub command: String,
    pub passed: bool,
    /// Tail of the output where it failed.
    pub output_excerpt: Option<String>,
}

/// Something the integration produced.
#[derive(Debug, PartialEq, Eq)]
pub struct IntegrationArtifact {
    pub kind: ArtifactKind,
    pub uri: String,
    pub description: Option<String>,
}

/// The integrator's report.
#[derive(Debug, PartialEq, Eq)]
pub struct IntegrationReport {
    pub status: IntegrationStatus,
    pub summary: String,
    /// Branches that landed, in merge order.
    pub merged: Vec<String>,
    pub conflicts: Vec<IntegrationConflict>,
    pub checks: Vec<IntegrationCheck>,
    pub artifacts: Vec<IntegrationArtifact>,
    /// What still needs doing.
    pub follow_up: Vec<String>,
}

/// The indices of the failed checks, in order.
pub open spec fn failed_of(checks: Seq<IntegrationCheck>) -> Seq<IntegrationCheck> {
    checks.filter(|c: IntegrationCheck| !c.passed)
}

impl IntegrationReport {
    /// Whether everything landed.
    pub fn is_integrated(&self) -> (b: bool)
        ensures
            b == (self.status == IntegrationStatus::Integrated),
    {
        self.status == IntegrationStatus::Integrated
    }

    /// Whether a conflict needs a decision.
    pub fn has_conflicts(&self) -> (b: bool)
        ensures
            b == (self.status == IntegrationStatus::Conflicts || self.conflicts@.len() > 0),
    {
        self.status == IntegrationStatus::Conflicts || self.conflicts.len() > 0
    }

    /// The checks that failed, in order.
    pub fn failed_checks(&self) -> (r: Vec<&IntegrationCheck>)
        ensures
            r@.unref() == failed_of(self.checks@),
    {
        let mut out: Vec<&IntegrationCheck> = Vec::new();
        let mut i: usize = 0;
        assert(out@.unref() =~= failed_of(self.checks@.subrange(0, 0)));
        while i < self.checks.len()
            invariant
                i <= self.checks@.len(),
                out@.unref() == failed_of(self.checks@.subrange(0, i as int)),
            decreases self.checks@.len() - i,
        {
            let check = &self.checks[i];
            proof {
                let s = self.checks@.subrange(0, i as int);
                assert(self.checks@.subrange(0, i + 1) =~= s.push(*check));
                assert(s.push(*check).drop_last() =~= s);
                reveal(Seq::filter);
            }
            let ghost before = out@;
            if !check.passed {
                out.push(check);
                assert(out@.unref() =~= before.unref().push(*check));
            }
            i = i + 1;
        }
        assert(self.checks@.subrange(0, self.checks@.len() as int) =~= self.checks@);
        out
    }
}

/// Integration instructions and report.
#[derive(Debug, Clone, Copy, PartialEq, Eq, Structural)]
pub struct Integrator;

impl Role for Integrator {
    open spec fn key(&self) -> Seq<char> {
        "integrator"@
    }

    open spec fn kind(&self) -> TaskKind {
        TaskKind::Integrate
    }

    /// The one role that writes.
    open spec fn policy(&self) -> WorkspacePolicy {
        WorkspacePolicy::Isolated
    }

    fn name(&self) -> (r: &'static str) {
        "integrator"
    }

    fn task_kind(&self) -> (r: TaskKind) {
        TaskKind::Integrate
    }

    fn workspace_policy(&self) -> (r: WorkspacePolicy) {
        WorkspacePolicy::Isolated
    }
}

/// The failed checks are those that did not pass, in order, and no other.
pub proof fn law_failed_checks_are_listed(
    checks: Seq<IntegrationCheck>,
    check: IntegrationCheck,
)
    ensures
        failed_of(Seq::empty()).len() == 0,
        !check.passed ==> failed_of(checks.push(check)) == failed_of(checks).push(check),
        check.passed ==> failed_of(checks.push(check)) == failed_of(checks),
{
    reveal(Seq::filter);
    assert(checks.push(check).drop_last() =~= checks);
}

/// The integrator integrates, in a checkout of its own.
pub proof fn law_the_integrator_has_its_own_checkout()
    ensures
        Integrator.kind() is Integrate,
        Integrator.policy() == WorkspacePolicy::Isolated,
{
}

} // verus!
