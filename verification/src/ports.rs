//! What the engine hands to its ports (router, roles, memory, judge, workspaces)
//! and what it gets back.
use vstd::prelude::*;

use crate::domain::{
    ArtifactRef, AttemptId, Complexity, FailureClass, Goal, Route, RunId, RunMode,
    TaskId, TaskKind, Workspace, WorkspacePolicy,
};
use crate::money::Amount;
use crate::roles::context::{Plan, SystemContextSection, Understanding};
use crate::text::cat3;

verus! {

/// Failure of a port.
#[derive(Debug, PartialEq, Eq)]
pub struct PortError {
    /// Which port failed.
    pub port: &'static str,
    pub message: String,
    /// How the saga classifies it.
    pub class: FailureClass,
}

impl PortError {
    /// A failure worth another try.
    pub fn transient(port: &'static str, message: String) -> (r: PortError)
        ensures
            r == (PortError { port, message, class: FailureClass::Transient }),
    {
        PortError { port, message, class: FailureClass::Transient }
    }

    /// A failure that another try would not change.
    pub fn permanent(port: &'static str, message: String) -> (r: PortError)
        ensures
            r == (PortError { port, message, class: FailureClass::Permanent }),
    {
        PortError { port, message, class: FailureClass::Permanent }
    }

    pub open spec fn shown(self) -> Seq<char> {
        self.port@ + " port: "@ + self.message@ + " ("@ + self.class.name() + ")"@
    }

    /// The failure in words.
    pub fn text(&self) -> (r: String)
        ensures
            r@ == self.shown(),
    {
        let mut s = cat3(self.port, " port: ", self.message.as_str());
        s.append(" (");
        s.append(self.class.as_str());
        s.append(")");
        s
    }
}

// ---------------------------------------------------------------------------
// Router
// ---------------------------------------------------------------------------
/// How a route was chosen.
#[derive(Debug, PartialEq, Eq)]
pub enum RoutingPolicy {
    /// There was one candidate.
    Fixed,
    /// The router's own policy, by name.
    Named(String),
}

impl Clone for RoutingPolicy {
    fn clone(&self) -> (r: Self)
        ensures
            r == *self,
    {
        match self {
            RoutingPolicy::Fixed => RoutingPolicy::Fixed,
            RoutingPolicy::Named(name) => RoutingPolicy::Named(name.clone()),
        }
    }
}

/// What the saga asks the router for.
#[derive(Debug, PartialEq, Eq)]
pub struct SelectRouteQuery {
    pub kind: TaskKind,
    pub complexity: Complexity,
    pub tags: Vec<String>,
    /// Aliases that failed on the task already.
    pub exclude: Vec<String>,
    /// What is left of the run's budget, where it has one.
    pub budget_left_usd: Option<Amount>,
    pub rng_seed: Option<u64>,
}

impl SelectRouteQuery {
    /// A query without tags, exclusions, budget or seed.
    pub fn new(kind: TaskKind, complexity: Complexity) -> (r: SelectRouteQuery)
        ensures
            r.kind == kind,
            r.complexity == complexity,
            r.tags@.len() == 0,
            r.exclude@.len() == 0,
            r.budget_left_usd is None,
            r.rng_seed is None,
    {
        SelectRouteQuery {
            kind,
            complexity,
            tags: Vec::new(),
            exclude: Vec::new(),
            budget_left_usd: None,
            rng_seed: None,
        }
    }

    /// Leaves out the aliases that failed already.
    pub fn excluding(self, aliases: Vec<String>) -> (r: SelectRouteQuery)
        ensures
            r == (SelectRouteQuery { exclude: aliases, ..self }),
    {
        let mut query = self;
        query.exclude = aliases;
        query
    }
}

/// IEEE bit pattern of 1.0.
pub const ONE_BITS: u32 = 0x3f80_0000;

/// IEEE bit pattern of 0.0.
pub const ZERO_BITS: u32 = 0;

/// One candidate of the router. The scores are IEEE bit patterns.
#[derive(Debug, PartialEq, Eq)]
pub struct CandidateScore {
    pub alias: String,
    pub sampled_success: u32,
    pub quality: u32,
    pub norm_cost: u32,
    pub norm_latency: u32,
    pub score: u32,
    pub samples: u32,
    pub excluded_reason: Option<String>,
}

/// What the router answered.
#[derive(Debug, PartialEq, Eq)]
pub struct RouteSelection {
    pub route: Route,
    pub policy: RoutingPolicy,
    pub candidates: Vec<CandidateScore>,
    pub catalog_version: String,
}

/// What is recorded of a selection.
#[derive(Debug, PartialEq, Eq)]
pub struct RouteSelectionInfo {
    pub policy: RoutingPolicy,
    pub candidates: Vec<String>,
    /// IEEE bit patterns, in the order of the candidates.
    pub scores: Vec<u32>,
    pub catalog_version: Option<String>,
}

impl RouteSelection {
    /// It selects the one candidate that there is.
    pub open spec fn is_fixed(self, route: Route) -> bool {
        &&& self.route == route
        &&& self.policy == RoutingPolicy::Fixed
        &&& self.candidates@ == seq![
            CandidateScore {
                alias: route.model,
                sampled_success: ONE_BITS,
                quality: ONE_BITS,
                norm_cost: ZERO_BITS,
                norm_latency: ZERO_BITS,
                score: ONE_BITS,
                samples: 0,
                excluded_reason: None,
            },
        ]
        &&& self.catalog_version@.len() == 0
    }

    /// The selection with the one candidate that there is.
    pub fn fixed(route: Route) -> (r: RouteSelection)
        ensures
            r.is_fixed(route),
    {
        let mut candidates: Vec<CandidateScore> = Vec::new();
        candidates.push(
            CandidateScore {
                alias: route.model.clone(),
                sampled_success: ONE_BITS,
                quality: ONE_BITS,
                norm_cost: ZERO_BITS,
                norm_latency: ZERO_BITS,
                score: ONE_BITS,
                samples: 0,
                excluded_reason: None,
            },
        );
        RouteSelection {
            route,
            policy: RoutingPolicy::Fixed,
            candidates,
            catalog_version: String::new(),
        }
    }

    /// What is recorded of the selection.
    pub open spec fn recorded_as(self, r: RouteSelectionInfo) -> bool {
        &&& r.policy == self.policy
        &&& r.candidates@ == self.candidates@.map_values(|c: CandidateScore| c.alias)
        &&& r.scores@ == self.candidates@.map_values(|c: CandidateScore| c.score)
        &&& r.catalog_version == (if self.catalog_version@.len() == 0 {
            None
        } else {
            Some(self.catalog_version)
        })
    }

    /// What is recorded of the selection: the aliases and scores in order, and
    /// the catalog's version where it has one.
    pub fn selection_info(&self) -> (r: RouteSelectionInfo)
        ensures
            self.recorded_as(r),
    {
        let mut candidates: Vec<String> = Vec::new();
        let mut scores: Vec<u32> = Vec::new();
        let ghost all = self.candidates@.map_values(|c: CandidateScore| c.alias);
        let ghost all_scores = self.candidates@.map_values(|c: CandidateScore| c.score);
        let mut i: usize = 0;
        while i < self.candidates.len()
            invariant
                i <= self.candidates@.len(),
                all == self.candidates@.map_values(|c: CandidateScore| c.alias),
                all_scores == self.candidates@.map_values(|c: CandidateScore| c.score),
                candidates@ == all.subrange(0, i as int),
                scores@ == all_scores.subrange(0, i as int),
            decreases self.candidates@.len() - i,
        {
            candidates.push(self.candidates[i].alias.clone());
            scores.push(self.candidates[i].score);
            i = i + 1;
            assert(candidates@ =~= all.subrange(0, i as int));
            assert(scores@ =~= all_scores.subrange(0, i as int));
        }
        assert(all.subrange(0, all.len() as int) =~= all);
        assert(all_scores.subrange(0, all_scores.len() as int) =~= all_scores);
        let catalog_version = if self.catalog_version.as_str().unicode_len() == 0 {
            None
        } else {
            Some(self.catalog_version.clone())
        };
        RouteSelectionInfo { policy: self.policy.clone(), candidates, scores, catalog_version }
    }
}

/// What the router learns of an attempt that is over.
#[derive(Debug, PartialEq, Eq)]
pub struct RecordRouteOutcome {
    pub run_id: RunId,
    pub task_id: TaskId,
    /// Recorded once per attempt.
    pub attempt_id: AttemptId,
    pub task_kind: TaskKind,
    pub alias: String,
    pub success: bool,
    /// IEEE bit pattern of the judge's score, where there is one.
    pub quality: Option<u32>,
    pub cost_usd: Option<Amount>,
    pub wall_ms: u64,
    pub failure_class: Option<FailureClass>,
}

// ---------------------------------------------------------------------------
// Roles
// ---------------------------------------------------------------------------
/// An answered clarification, as the planner sees it.
#[derive(Debug, PartialEq, Eq)]
pub struct AnsweredQuestion {
    pub question: String,
    /// The answer as text.
    pub answer: String,
    pub answered_by: String,
}

impl Clone for AnsweredQuestion {
    fn clone(&self) -> (r: Self)
        ensures
            r == *self,
    {
        AnsweredQuestion {
            question: self.question.clone(),
            answer: self.answer.clone(),
            answered_by: self.answered_by.clone(),
        }
    }
}

/// A copy of the answers.
pub fn copy_answers(items: &Vec<AnsweredQuestion>) -> (r: Vec<AnsweredQuestion>)
    ensures
        r@ == items@,
{
    let mut out: Vec<AnsweredQuestion> = Vec::new();
    let mut i: usize = 0;
    while i < items.len()
        invariant
            i <= items@.len(),
            out@ == items@.subrange(0, i as int),
        decreases items@.len() - i,
    {
        out.push(items[i].clone());
        i = i + 1;
        assert(out@ =~= items@.subrange(0, i as int));
    }
    assert(items@.subrange(0, items@.len() as int) =~= items@);
    out
}

/// Everything a role call needs to know of the run.
#[derive(Debug, PartialEq, Eq)]
pub struct RoleContext {
    pub run_id: RunId,
    pub goal: Goal,
    pub mode: RunMode,
    pub memory: Option<String>,
    pub system_context: Vec<SystemContextSection>,
    pub understanding: Option<Understanding>,
    pub answers: Vec<AnsweredQuestion>,
    /// The plan that was proposed before.
    pub previous_plan: Option<Plan>,
    /// What the user said of it.
    pub feedback: Option<String>,
    /// What the validator found wrong with it.
    pub repair_errors: Vec<String>,
    pub route: Route,
    pub effort: Option<String>,
}

impl RoleContext {
    /// A context with the goal and the role's route alone.
    pub fn new(run_id: RunId, goal: Goal, mode: RunMode, route: Route) -> (r: RoleContext)
        ensures
            r.run_id == run_id,
            r.goal == goal,
            r.mode == mode,
            r.memory is None,
            r.system_context@.len() == 0,
            r.understanding is None,
            r.answers@.len() == 0,
            r.previous_plan is None,
            r.feedback is None,
            r.repair_errors@.len() == 0,
            r.route == route,
            r.effort is None,
    {
        RoleContext {
            run_id,
            goal,
            mode,
            memory: None,
            system_context: Vec::new(),
            understanding: None,
            answers: Vec::new(),
            previous_plan: None,
            feedback: None,
            repair_errors: Vec::new(),
            route,
            effort: None,
        }
    }

    /// Whether the call repairs an invalid plan.
    pub fn is_repair(&self) -> (b: bool)
        ensures
            b == (self.repair_errors@.len() > 0),
    {
        self.repair_errors.len() > 0
    }
}

/// What the integrator is asked to sum up.
#[derive(Debug, PartialEq, Eq)]
pub struct IntegrateContext {
    pub run_id: RunId,
    pub goal: Goal,
    pub acceptance_criteria: Vec<String>,
    pub task_summaries: Vec<String>,
    pub artifacts: Vec<ArtifactRef>,
    pub conflicts: Vec<String>,
    pub route: Route,
}

/// What the integrator answered.
#[derive(Debug, PartialEq, Eq)]
pub struct IntegrationSummary {
    pub summary: String,
}

// ---------------------------------------------------------------------------
// Memory, workspaces
// ---------------------------------------------------------------------------
/// A lesson to remember.
#[derive(Debug, PartialEq, Eq)]
pub struct Lesson {
    pub run_id: RunId,
    pub content: String,
    pub tags: Vec<String>,
}

/// The checkout that an attempt asks for.
#[derive(Debug, PartialEq, Eq)]
pub struct PrepareWorkspace {
    pub run_id: RunId,
    pub task_id: TaskId,
    pub attempt_id: AttemptId,
    /// The task's title.
    pub task_slug: String,
    pub policy: WorkspacePolicy,
}

/// What is to be integrated.
#[derive(Debug, PartialEq, Eq)]
pub struct IntegrateRequest {
    pub run_id: RunId,
    pub title: String,
    pub summary: String,
    pub acceptance_criteria: Vec<String>,
    /// Of the tasks that succeeded, in plan order.
    pub workspaces: Vec<Workspace>,
}

/// What came of the integration.
#[derive(Debug, PartialEq, Eq)]
pub struct IntegrationOutcome {
    pub artifacts: Vec<ArtifactRef>,
    /// What conflicted.
    pub conflicts: Vec<String>,
}

impl Default for IntegrationOutcome {
    fn default() -> (r: Self)
        ensures
            r.artifacts@.len() == 0,
            r.conflicts@.len() == 0,
    {
        IntegrationOutcome { artifacts: Vec::new(), conflicts: Vec::new() }
    }
}

impl IntegrationOutcome {
    /// Whether nothing conflicted.
    pub fn is_clean(&self) -> (b: bool)
        ensures
            b == (self.conflicts@.len() == 0),
    {
        self.conflicts.len() == 0
    }
}

// ---------------------------------------------------------------------------
// Laws
// ---------------------------------------------------------------------------
/// A selection is recorded with every candidate and its score, in order, and with
/// the version of the catalog where there is one.
pub proof fn law_selections_are_recorded(s: RouteSelection, r: RouteSelectionInfo, i: int)
    requires
        s.recorded_as(r),
    ensures
        r.policy == s.policy,
        r.candidates@.len() == s.candidates@.len() && r.scores@.len() == s.candidates@.len(),
        0 <= i < s.candidates@.len() ==> r.candidates@[i] == s.candidates@[i].alias && r.scores@[i]
            == s.candidates@[i].score,
        s.catalog_version@.len() == 0 <==> r.catalog_version is None,
        s.catalog_version@.len() > 0 ==> r.catalog_version == Some(s.catalog_version),
{
}

/// A fixed selection is the route itself, as its one candidate.
pub proof fn law_a_fixed_route_is_the_only_candidate(s: RouteSelection, route: Route)
    requires
        s.is_fixed(route),
    ensures
        s.route == route,
        s.policy is Fixed,
        s.candidates@.len() == 1,
        s.candidates@[0].alias == route.model,
        s.candidates@[0].excluded_reason is None,
{
}

} // verus!
