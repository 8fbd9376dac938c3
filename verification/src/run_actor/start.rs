//! Starting one attempt, step by step: a route, a permit, a workspace of its own,
//! the record of the start, and then the attempt runs. What was taken on the way is
//! given back where a later step fails.
use vstd::prelude::*;

use crate::domain::{AttemptId, Route, WorkerKind, Workspace};

verus! {

/// What a start waits for.
#[derive(Debug, Clone, Copy, PartialEq, Eq, Structural)]
pub enum StartStage {
    Routing,
    Acquiring,
    Preparing,
    Recording,
    CleaningUp,
    Releasing,
    Running,
    Ended,
}

/// What is to be done next.
#[derive(Debug, PartialEq, Eq)]
#[allow(inconsistent_fields)]
pub enum StartAction {
    /// Find the task's route.
    Route,
    /// Take a permit for the worker.
    Acquire { worker: WorkerKind },
    /// Prepare a workspace for this attempt.
    Prepare { attempt_id: AttemptId },
    /// Record that this attempt starts in the workspace.
    Record { attempt_id: AttemptId, workspace: Workspace },
    /// Clean up the workspace of an attempt that did not start.
    CleanUp { workspace: Workspace },
    /// Give the permit back.
    Release,
    /// The attempt runs.
    Run { attempt_id: AttemptId, route: Route, workspace: Workspace },
    /// The attempt does not start now.
    GiveUp,
}

/// What came of an action.
#[derive(Debug, PartialEq, Eq)]
pub enum StartReply {
    /// The route, where there is one.
    Routed(Option<Route>),
    /// Whether a permit was free.
    Acquired(bool),
    /// The workspace, unless preparing it failed.
    Prepared(Option<Workspace>),
    /// Whether the start is on record.
    Recorded(bool),
    CleanedUp,
    Released,
}

/// The start of one attempt.
#[derive(Debug, PartialEq, Eq)]
pub struct AttemptStart {
    pub attempt_id: AttemptId,
    pub stage: StartStage,
    pub route: Option<Route>,
    pub workspace: Option<Workspace>,
}

impl AttemptStart {
    pub open spec fn fresh(attempt_id: AttemptId) -> AttemptStart {
        AttemptStart { attempt_id, stage: StartStage::Routing, route: None, workspace: None }
    }

    /// What a later step needs is known.
    pub open spec fn wf(self) -> bool {
        &&& (self.stage == StartStage::Recording ==> self.route is Some && self.workspace is Some)
        &&& (self.stage == StartStage::Acquiring || self.stage == StartStage::Preparing
            ==> self.route is Some)
    }

    /// The reply answers what the start waits for.
    pub open spec fn expects(self, reply: StartReply) -> bool {
        match reply {
            StartReply::Routed(_) => self.stage == StartStage::Routing,
            StartReply::Acquired(_) => self.stage == StartStage::Acquiring,
            StartReply::Prepared(_) => self.stage == StartStage::Preparing,
            StartReply::Recorded(_) => self.stage == StartStage::Recording,
            StartReply::CleanedUp => self.stage == StartStage::CleaningUp,
            StartReply::Released => self.stage == StartStage::Releasing,
        }
    }

    /// What follows a reply.
    pub open spec fn after(self, reply: StartReply) -> (AttemptStart, StartAction) {
        let ended = AttemptStart { stage: StartStage::Ended, ..self };
        let releasing = AttemptStart { stage: StartStage::Releasing, ..self };
        match reply {
            StartReply::Routed(Some(route)) => (
                AttemptStart { stage: StartStage::Acquiring, route: Some(route), ..self },
                StartAction::Acquire { worker: route.worker },
            ),
            StartReply::Routed(None) => (ended, StartAction::GiveUp),
            StartReply::Acquired(true) => (
                AttemptStart { stage: StartStage::Preparing, ..self },
                StartAction::Prepare { attempt_id: self.attempt_id },
            ),
            StartReply::Acquired(false) => (ended, StartAction::GiveUp),
            StartReply::Prepared(Some(workspace)) => (
                AttemptStart {
                    stage: StartStage::Recording,
                    workspace: Some(workspace),
                    ..self
                },
                StartAction::Record { attempt_id: self.attempt_id, workspace },
            ),
            StartReply::Prepared(None) => (releasing, StartAction::Release),
            StartReply::Recorded(true) => (
                AttemptStart { stage: StartStage::Running, ..self },
                StartAction::Run {
                    attempt_id: self.attempt_id,
                    route: self.route->0,
                    workspace: self.workspace->0,
                },
            ),
            StartReply::Recorded(false) => (
                AttemptStart { stage: StartStage::CleaningUp, ..self },
                StartAction::CleanUp { workspace: self.workspace->0 },
            ),
            StartReply::CleanedUp => (releasing, StartAction::Release),
            StartReply::Released => (ended, StartAction::GiveUp),
        }
    }

    /// The start of the attempt, and the first thing to do.
    pub fn new(attempt_id: AttemptId) -> (r: (AttemptStart, StartAction))
        ensures
            r.0 == AttemptStart::fresh(attempt_id),
            r.0.wf(),
            r.1 == StartAction::Route,
    {
        let start = AttemptStart {
            attempt_id,
            stage: StartStage::Routing,
            route: None,
            workspace: None,
        };
        (start, StartAction::Route)
    }

    /// Whether the reply answers what the start waits for.
    pub fn accepts(&self, reply: &StartReply) -> (b: bool)
        ensures
            b == self.expects(*reply),
    {
        match reply {
            StartReply::Routed(_) => self.stage == StartStage::Routing,
            StartReply::Acquired(_) => self.stage == StartStage::Acquiring,
            StartReply::Prepared(_) => self.stage == StartStage::Preparing,
            StartReply::Recorded(_) => self.stage == StartStage::Recording,
            StartReply::CleanedUp => self.stage == StartStage::CleaningUp,
            StartReply::Released => self.stage == StartStage::Releasing,
        }
    }

    /// What follows a reply.
    pub fn next(self, reply: StartReply) -> (r: (AttemptStart, StartAction))
        requires
            self.wf(),
            self.expects(reply),
        ensures
            r == self.after(reply),
            r.0.wf(),
    {
        let mut next = self;
        match reply {
            StartReply::Routed(Some(route)) => {
                let worker = route.worker.clone();
                next.stage = StartStage::Acquiring;
                next.route = Some(route);
                (next, StartAction::Acquire { worker })
            },
            StartReply::Acquired(true) => {
                next.stage = StartStage::Preparing;
                let attempt_id: AttemptId = next.attempt_id;
                (next, StartAction::Prepare { attempt_id })
            },
            StartReply::Routed(None) | StartReply::Acquired(false) | StartReply::Released => {
                next.stage = StartStage::Ended;
                (next, StartAction::GiveUp)
            },
            StartReply::Prepared(Some(workspace)) => {
                next.stage = StartStage::Recording;
                next.workspace = Some(workspace.clone());
                let attempt_id: AttemptId = next.attempt_id;
                (next, StartAction::Record { attempt_id, workspace })
            },
            StartReply::Prepared(None) | StartReply::CleanedUp => {
                next.stage = StartStage::Releasing;
                (next, StartAction::Release)
            },
            StartReply::Recorded(recorded) => {
                let attempt_id: AttemptId = next.attempt_id;
                match (&next.route, &next.workspace) {
                    (Some(route), Some(workspace)) => {
                        let route = route.clone();
                        let workspace = workspace.clone();
                        if recorded {
                            next.stage = StartStage::Running;
                            (next, StartAction::Run { attempt_id, route, workspace })
                        } else {
                            next.stage = StartStage::CleaningUp;
                            (next, StartAction::CleanUp { workspace })
                        }
                    },
                    _ => {
                        assert(false);
                        (next, StartAction::GiveUp)
                    },
                }
            },
        }
    }
}

// ---------------------------------------------------------------------------
// Laws
// ---------------------------------------------------------------------------
/// Where a start stands after the replies, and all that was done for it; a reply
/// that nothing waits for has no part in it.
pub open spec fn start_of(attempt_id: AttemptId, replies: Seq<StartReply>) -> (
    AttemptStart,
    Seq<StartAction>,
)
    decreases replies.len(),
{
    if replies.len() == 0 {
        (AttemptStart::fresh(attempt_id), seq![StartAction::Route])
    } else {
        let (state, done) = start_of(attempt_id, replies.drop_last());
        if state.expects(replies.last()) {
            let (next, action) = state.after(replies.last());
            (next, done.push(action))
        } else {
            (state, done)
        }
    }
}

/// The action is the one that the stage waits for.
pub open spec fn awaited(state: AttemptStart, action: StartAction) -> bool {
    match state.stage {
        StartStage::Routing => action is Route,
        StartStage::Acquiring => action is Acquire,
        StartStage::Preparing => action is Prepare,
        StartStage::Recording => action matches StartAction::Record { workspace, .. }
            && state.workspace == Some(workspace),
        StartStage::CleaningUp => action is CleanUp,
        StartStage::Releasing => action is Release,
        StartStage::Running => action is Run,
        StartStage::Ended => action is GiveUp,
    }
}

/// The action at `i` follows the one before it: what is recorded was prepared, what
/// runs is on record, a workspace is cleaned up where its record was refused, and a
/// permit is given back where nothing runs.
pub open spec fn follows(attempt_id: AttemptId, done: Seq<StartAction>, i: int) -> bool {
    match done[i] {
        StartAction::Prepare { attempt_id: id } => id == attempt_id && i >= 1 && done[i - 1]
            is Acquire,
        StartAction::Record { attempt_id: id, .. } => id == attempt_id && i >= 1 && done[i - 1]
            is Prepare,
        StartAction::Run { attempt_id: id, workspace, .. } => id == attempt_id && i >= 1 && (
        done[i - 1] matches StartAction::Record { workspace: w, .. } && w == workspace),
        StartAction::CleanUp { workspace } => i >= 1 && (
        done[i - 1] matches StartAction::Record { workspace: w, .. } && w == workspace),
        StartAction::Release => i >= 1 && (done[i - 1] is Prepare || done[i - 1] is CleanUp),
        StartAction::GiveUp => i >= 1 && (done[i - 1] is Route || done[i - 1] is Acquire || done[i
            - 1] is Release),
        _ => true,
    }
}

/// The workspace of a start is prepared under the identity that is then recorded,
/// and only an attempt on record runs. Where the record is refused, the workspace
/// is cleaned up and the permit given back; a start that gives up holds no permit.
pub proof fn law_a_start_leaves_nothing_behind(attempt_id: AttemptId, replies: Seq<StartReply>)
    ensures
        start_of(attempt_id, replies).0.wf(),
        forall|i: int|
            0 <= i < start_of(attempt_id, replies).1.len() ==> #[trigger] follows(
                attempt_id,
                start_of(attempt_id, replies).1,
                i,
            ),
{
    lemma_start(attempt_id, replies);
}

proof fn lemma_start(attempt_id: AttemptId, replies: Seq<StartReply>)
    ensures
        ({
            let (state, done) = start_of(attempt_id, replies);
            &&& state.wf()
            &&& state.attempt_id == attempt_id
            &&& done.len() > 0
            &&& awaited(state, done.last())
            &&& forall|i: int| 0 <= i < done.len() ==> #[trigger] follows(attempt_id, done, i)
        }),
    decreases replies.len(),
{
    if replies.len() > 0 {
        lemma_start(attempt_id, replies.drop_last());
        let (state, done) = start_of(attempt_id, replies.drop_last());
        if state.expects(replies.last()) {
            let (next, action) = state.after(replies.last());
            let all = done.push(action);
            assert(all.last() == action);
            assert forall|i: int| 0 <= i < all.len() implies #[trigger] follows(
                attempt_id,
                all,
                i,
            ) by {
                if i < done.len() {
                    assert(follows(attempt_id, done, i));
                    assert(all[i] == done[i]);
                } else {
                    assert(all[i - 1] == done.last());
                }
            }
        }
    }
}

/// A start whose record is refused cleans up what was prepared and does not run.
pub proof fn law_a_refused_start_does_not_run(state: AttemptStart)
    requires
        state.wf(),
        state.stage == StartStage::Recording,
    ensures
        ({
            let (cleaning, first) = state.after(StartReply::Recorded(false));
            let (releasing, second) = cleaning.after(StartReply::CleanedUp);
            let (ended, third) = releasing.after(StartReply::Released);
            &&& first == (StartAction::CleanUp { workspace: state.workspace->0 })
            &&& second == StartAction::Release
            &&& third == StartAction::GiveUp
            &&& ended.stage == StartStage::Ended
        }),
{
}

/// A start goes on step by step as long as each one succeeds: a permit for the
/// worker of its route, a workspace, the record of its start, and then it runs with
/// all of these. Without a route or a permit it gives up, and a workspace that
/// could not be prepared gives the permit back.
pub proof fn law_a_start_goes_step_by_step(state: AttemptStart, route: Route, workspace: Workspace)
    requires
        state.wf(),
    ensures
        ({
            let (next, action) = state.after(StartReply::Routed(Some(route)));
            &&& action == (StartAction::Acquire { worker: route.worker })
            &&& next.stage == StartStage::Acquiring && next.route == Some(route)
        }),
        ({
            let (next, action) = state.after(StartReply::Routed(None));
            action is GiveUp && next.stage == StartStage::Ended
        }),
        ({
            let (next, action) = state.after(StartReply::Acquired(true));
            &&& action == (StartAction::Prepare { attempt_id: state.attempt_id })
            &&& next.stage == StartStage::Preparing && next.route == state.route
        }),
        ({
            let (next, action) = state.after(StartReply::Acquired(false));
            action is GiveUp && next.stage == StartStage::Ended
        }),
        ({
            let (next, action) = state.after(StartReply::Prepared(Some(workspace)));
            &&& action == (StartAction::Record { attempt_id: state.attempt_id, workspace })
            &&& next.stage == StartStage::Recording && next.workspace == Some(workspace)
                && next.route == state.route
        }),
        ({
            let (next, action) = state.after(StartReply::Prepared(None));
            action is Release && next.stage == StartStage::Releasing
        }),
        state.stage == StartStage::Recording ==> ({
            let (next, action) = state.after(StartReply::Recorded(true));
            &&& next.stage == StartStage::Running
            &&& action matches StartAction::Run { attempt_id, route: r, workspace: w } && attempt_id
                == state.attempt_id && Some(r) == state.route && Some(w) == state.workspace
        }),
{
}

/// Each reply answers one stage alone; a start that runs or ended waits for none.
pub proof fn law_replies_answer_their_stage(state: AttemptStart, reply: StartReply)
    ensures
        state.stage == StartStage::Running || state.stage == StartStage::Ended ==> !state.expects(
            reply,
        ),
        state.expects(reply) ==> match state.stage {
            StartStage::Routing => reply is Routed,
            StartStage::Acquiring => reply is Acquired,
            StartStage::Preparing => reply is Prepared,
            StartStage::Recording => reply is Recorded,
            StartStage::CleaningUp => reply is CleanedUp,
            StartStage::Releasing => reply is Released,
            _ => false,
        },
        state.stage == StartStage::Routing && reply is Routed ==> state.expects(reply),
        state.stage == StartStage::Acquiring && reply is Acquired ==> state.expects(reply),
        state.stage == StartStage::Preparing && reply is Prepared ==> state.expects(reply),
        state.stage == StartStage::Recording && reply is Recorded ==> state.expects(reply),
        state.stage == StartStage::CleaningUp && reply is CleanedUp ==> state.expects(reply),
        state.stage == StartStage::Releasing && reply is Released ==> state.expects(reply),
{
}

} // verus!
