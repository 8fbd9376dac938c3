//! The summariser: run and artifact summaries, and the preferences worth
//! remembering.
use vstd::prelude::*;

use super::Role;
use crate::domain::{TaskKind, WorkspacePolicy};

verus! {

/// IEEE bit pattern of 0.7, the confidence below which a preference is dropped.
pub const MIN_PREFERENCE_CONFIDENCE: u32 = 0x3f33_3333;

/// Where a preference applies.
#[derive(Debug, Clone, Copy, PartialEq, Eq, Structural)]
pub enum PreferenceScope {
    Global,
    /// This repository only.
    Repo,
}

impl Default for PreferenceScope {
    fn default() -> (r: Self)
        ensures
            r == PreferenceScope::Global,
    {
        PreferenceScope::Global
    }
}

/// Where a memory applies.
#[derive(Debug, PartialEq, Eq)]
pub enum MemoryScope {
    Global,
    Repo(String),
}

impl PreferenceScope {
    /// The scope of the memory, given the current repository.
    pub fn to_memory_scope(self, repo_id: &str) -> (r: MemoryScope)
        ensures
            match self {
                PreferenceScope::Global => r == MemoryScope::Global,
                PreferenceScope::Repo => r matches MemoryScope::Repo(id) && id@ == repo_id@,
            },
    {
        match self {
            PreferenceScope::Global => MemoryScope::Global,
            PreferenceScope::Repo => MemoryScope::Repo(repo_id.to_owned()),
        }
    }
}

/// One summarised artifact.
#[derive(Debug, PartialEq, Eq)]
pub struct ArtifactSummary {
    pub artifact_id: String,
    pub summary: String,
}

/// One extracted preference.
#[derive(Debug, PartialEq, Eq)]
pub struct PreferenceRecord {
    pub statement: String,
    /// IEEE bit pattern of a confidence from zero to one, which orders like the
    /// number.
    pub confidence: u32,
    pub scope: PreferenceScope,
}

/// The summariser's output.
#[derive(Debug, PartialEq, Eq)]
pub struct MemoryRecords {
    pub summary: String,
    pub artifact_summaries: Vec<ArtifactSummary>,
    pub preferences: Vec<PreferenceRecord>,
}

/// The preferences at or above `min_confidence`, in order.
pub open spec fn kept_of(preferences: Seq<PreferenceRecord>, min_confidence: u32) -> Seq<
    PreferenceRecord,
> {
    preferences.filter(|p: PreferenceRecord| p.confidence >= min_confidence)
}

impl MemoryRecords {
    /// The preferences at or above `min_confidence`, in order.
    pub fn kept_preferences(&self, min_confidence: u32) -> (r: Vec<&PreferenceRecord>)
        ensures
            r@.unref() == kept_of(self.preferences@, min_confidence),
    {
        let ghost keep = |p: PreferenceRecord| p.confidence >= min_confidence;
        let mut out: Vec<&PreferenceRecord> = Vec::new();
        let mut i: usize = 0;
        assert(out@.unref() =~= self.preferences@.subrange(0, 0).filter(keep));
        while i < self.preferences.len()
            invariant
                i <= self.preferences@.len(),
                keep == (|p: PreferenceRecord| p.confidence >= min_confidence),
                out@.unref() == self.preferences@.subrange(0, i as int).filter(keep),
            decreases self.preferences@.len() - i,
        {
            let p = &self.preferences[i];
            proof {
                let s = self.preferences@.subrange(0, i as int);
                assert(self.preferences@.subrange(0, i + 1) =~= s.push(*p));
                assert(s.push(*p).drop_last() =~= s);
                reveal(Seq::filter);
            }
            let ghost before = out@;
            if p.confidence >= min_confidence {
                out.push(p);
                assert(out@.unref() =~= before.unref().push(*p));
            }
            i = i + 1;
        }
        assert(self.preferences@.subrange(0, self.preferences@.len() as int) =~= self.preferences@);
        out
    }
}

/// Run and artifact summaries, preference extraction.
#[derive(Debug, Clone, Copy, PartialEq, Eq, Structural)]
pub struct Summarizer;

impl Role for Summarizer {
    open spec fn key(&self) -> Seq<char> {
        "summarizer"@
    }

    open spec fn kind(&self) -> TaskKind {
        TaskKind::Write
    }

    open spec fn policy(&self) -> WorkspacePolicy {
        WorkspacePolicy::ReadOnly
    }

    fn name(&self) -> (r: &'static str) {
        "summarizer"
    }

    fn task_kind(&self) -> (r: TaskKind) {
        TaskKind::Write
    }

    fn workspace_policy(&self) -> (r: WorkspacePolicy) {
        WorkspacePolicy::ReadOnly
    }
}

// ---------------------------------------------------------------------------
// Laws
// ---------------------------------------------------------------------------
/// A preference is kept exactly when it is at least as sure as asked for, and the
/// kept ones stay in order.
pub proof fn law_sure_preferences_are_kept(
    preferences: Seq<PreferenceRecord>,
    p: PreferenceRecord,
    min_confidence: u32,
)
    ensures
        p.confidence >= min_confidence ==> kept_of(preferences.push(p), min_confidence) == kept_of(
            preferences,
            min_confidence,
        ).push(p),
        p.confidence < min_confidence ==> kept_of(preferences.push(p), min_confidence) == kept_of(
            preferences,
            min_confidence,
        ),
{
    reveal(Seq::filter);
    assert(preferences.push(p).drop_last() =~= preferences);
}

} // verus!
