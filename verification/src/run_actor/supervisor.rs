//! The supervisor: which runs have an actor, which events reach it, and what is
//! cleaned up when the engine starts.
use std::collections::{BTreeMap, BTreeSet};

use vstd::prelude::*;

use super::actor::RUNTIME_RESTARTED;
use super::view::{SagaEnvelope, SagaModel, SagaView};
use crate::commands::FailAttempt;
use crate::domain::{
    AttemptId, FailureClass, Instant, RunId, RunStatus, TaskId, TaskStatus, Usage,
};
use crate::maps::{ascending, keys_of};
use crate::ports::PortError;

verus! {

broadcast use vstd::std_specs::btree::group_btree_axioms;

/// Where an event goes.
#[derive(Debug, Clone, Copy, PartialEq, Eq, Structural)]
pub enum Delivery {
    /// To the actor of its run.
    Deliver,
    /// To a new actor.
    SpawnAndDeliver,
    /// Nowhere: its run has no actor.
    Ignore,
}

/// An attempt that was running when the process died.
#[derive(Debug, Clone, Copy, PartialEq, Eq, Structural)]
pub struct Dangling {
    pub task_id: TaskId,
    pub attempt_id: AttemptId,
}

/// The supervisor's state as values.
pub ghost struct SupervisorModel {
    pub runs: Set<RunId>,
    pub admitting: bool,
}

/// The runs with an actor, and whether new runs are admitted.
#[derive(Debug)]
pub struct RunSupervisor {
    pub runs: BTreeSet<RunId>,
    pub admitting: bool,
}

impl View for RunSupervisor {
    type V = SupervisorModel;

    open spec fn view(&self) -> SupervisorModel {
        SupervisorModel { runs: self.runs@, admitting: self.admitting }
    }
}

/// The task has an attempt that nothing ended.
pub open spec fn is_dangling(view: SagaModel, d: Dangling) -> bool {
    view.tasks.contains_key(d.task_id) && view.tasks[d.task_id].status.active()
        && view.tasks[d.task_id].active_attempt == Some(d.attempt_id)
}

/// The run is to go on: it was started and is not over.
pub open spec fn goes_on(view: SagaModel) -> bool {
    view.run.exists && !view.run.status.terminal()
}

/// Where an event of `run_id` goes; `started` says that it is the run's first.
pub open spec fn delivery_of(s: SupervisorModel, run_id: RunId, started: bool) -> Delivery {
    if s.runs.contains(run_id) {
        Delivery::Deliver
    } else if started {
        Delivery::SpawnAndDeliver
    } else {
        Delivery::Ignore
    }
}

/// Where an event went, and the actors that there are then.
pub open spec fn event_routed(
    was: SupervisorModel,
    run_id: RunId,
    started: bool,
    next: SupervisorModel,
    delivery: Delivery,
) -> bool {
    &&& delivery == delivery_of(was, run_id, started)
    &&& next == (SupervisorModel {
        runs: if delivery == Delivery::SpawnAndDeliver {
            was.runs.insert(run_id)
        } else {
            was.runs
        },
        ..was
    })
}

/// Whether a new run is admitted.
pub open spec fn admission(s: SupervisorModel, r: Result<(), PortError>) -> bool {
    match r {
        Ok(_) => s.admitting,
        Err(error) => !s.admitting && error.port@ == "orchestrator"@ && error.message@
            == "draining: not admitting new runs"@ && error.class == FailureClass::Transient,
    }
}

/// Where reading the log goes on after a page.
pub open spec fn page_end(page: Seq<LoggedEvent>) -> Option<u64> {
    if page.len() == 0 {
        None
    } else {
        Some(page.last().position)
    }
}

/// An event of the log and the run that it belongs to.
#[derive(Debug, PartialEq, Eq)]
pub struct LoggedEvent {
    pub run_id: RunId,
    pub position: u64,
    pub envelope: SagaEnvelope,
}

/// The events of a run, in the order of the log.
pub open spec fn of_run(log: Seq<LoggedEvent>, run_id: RunId) -> Seq<SagaEnvelope>
    decreases log.len(),
{
    if log.len() == 0 {
        Seq::empty()
    } else if log.last().run_id == run_id {
        of_run(log.drop_last(), run_id).push(log.last().envelope)
    } else {
        of_run(log.drop_last(), run_id)
    }
}

/// `view` is what the run's events lead to.
pub open spec fn is_view_of(view: SagaModel, events: Seq<SagaEnvelope>) -> bool {
    exists|start: SagaModel| #[trigger] start.is_new() && view == start.replayed(events)
}

proof fn lemma_view_grows(view: SagaModel, events: Seq<SagaEnvelope>, e: SagaEnvelope)
    requires
        is_view_of(view, events),
    ensures
        is_view_of(
            match view.after(e) {
                Some(next) => next,
                None => view,
            },
            events.push(e),
        ),
{
    let start = choose|start: SagaModel| #[trigger]
        start.is_new() && view == start.replayed(events);
    assert(events.push(e).drop_last() =~= events);
    assert(start.replayed(events.push(e)) == (match view.after(e) {
        Some(next) => next,
        None => view,
    }));
}

/// The views of all runs in the log: one per run, made of its own events alone,
/// in their order.
pub fn views_of(log: Vec<LoggedEvent>) -> (r: BTreeMap<RunId, SagaView>)
    ensures
        forall|id: RunId| #[trigger]
            r@.contains_key(id) <==> exists|i: int|
                0 <= i < log@.len() && (#[trigger] log@[i]).run_id == id,
        forall|id: RunId| #[trigger]
            r@.contains_key(id) ==> is_view_of(r@[id]@, of_run(log@, id)),
{
    let ghost all = log@;
    let mut rest = log;
    let mut events: Vec<LoggedEvent> = Vec::new();
    while rest.len() > 0
        invariant
            rest@.len() + events@.len() == all.len(),
            rest@ == all.subrange(0, rest@.len() as int),
            forall|i: int|
                0 <= i < events@.len() ==> #[trigger] events@[i] == all[all.len() - 1 - i],
        decreases rest@.len(),
    {
        if let Some(e) = rest.pop() {
            events.push(e);
        }
    }
    let mut views: BTreeMap<RunId, SagaView> = BTreeMap::new();
    let ghost mut done: int = 0;
    assert(all.subrange(0, 0) =~= Seq::empty());
    while events.len() > 0
        invariant
            done + events@.len() == all.len(),
            0 <= done,
            forall|i: int|
                0 <= i < events@.len() ==> #[trigger] events@[i] == all[all.len() - 1 - i],
            forall|id: RunId| #[trigger]
                views@.contains_key(id) <==> exists|i: int|
                    0 <= i < done && (#[trigger] all[i]).run_id == id,
            forall|id: RunId| #[trigger]
                views@.contains_key(id) ==> is_view_of(
                    views@[id]@,
                    of_run(all.subrange(0, done), id),
                ),
        decreases events@.len(),
    {
        if let Some(event) = events.pop() {
            proof {
                assert(event == all[done]);
                assert(all.subrange(0, done + 1).drop_last() =~= all.subrange(0, done));
                assert(all.subrange(0, done + 1).last() == event);
            }
            let id: RunId = event.run_id;
            let ghost was = views@;
            let ghost known = of_run(all.subrange(0, done), id);
            let ghost envelope = event.envelope;
            let mut view = match views.remove(&id) {
                Some(view) => view,
                None => SagaView::new(),
            };
            proof {
                if !was.contains_key(id) {
                    lemma_no_events(all.subrange(0, done), id);
                    assert(view@.replayed(known) == view@);
                    assert(view@.is_new());
                }
                lemma_view_grows(view@, known, envelope);
            }
            view.apply(event.envelope);
            views.insert(id, view);
            proof {
                done = done + 1;
                assert forall|k: RunId| #[trigger] views@.contains_key(k) implies is_view_of(
                    views@[k]@,
                    of_run(all.subrange(0, done), k),
                ) by {
                    if k != id {
                        assert(was.contains_key(k));
                    }
                }
                assert forall|k: RunId| (exists|i: int|
                    0 <= i < done && (#[trigger] all[i]).run_id == k) implies
                    #[trigger] views@.contains_key(k) by {
                    if k != id {
                        let i = choose|i: int| 0 <= i < done && (#[trigger] all[i]).run_id == k;
                        assert(i < done - 1);
                        assert(was.contains_key(k));
                    }
                }
                assert forall|k: RunId| #[trigger] views@.contains_key(k) implies exists|i: int|
                    0 <= i < done && (#[trigger] all[i]).run_id == k by {
                    if k == id {
                        assert(all[done - 1].run_id == k);
                    } else {
                        assert(was.contains_key(k));
                    }
                }
            }
        }
    }
    assert(all.subrange(0, done) =~= all);
    views
}

proof fn lemma_no_events(log: Seq<LoggedEvent>, run_id: RunId)
    requires
        forall|i: int| 0 <= i < log.len() ==> (#[trigger] log[i]).run_id != run_id,
    ensures
        of_run(log, run_id) == Seq::<SagaEnvelope>::empty(),
    decreases log.len(),
{
    if log.len() > 0 {
        assert forall|i: int| 0 <= i < log.drop_last().len() implies (
        #[trigger] log.drop_last()[i]).run_id != run_id by {
            assert(log[i].run_id != run_id);
        }
        lemma_no_events(log.drop_last(), run_id);
        assert(log[log.len() - 1].run_id != run_id);
    }
}

/// Where reading the log goes on after a page; `None` at its end.
pub fn next_page(page: &Vec<LoggedEvent>) -> (r: Option<u64>)
    ensures
        r == page_end(page@),
{
    let n: usize = page.len();
    if n == 0 {
        None
    } else {
        Some(page[n - 1].position)
    }
}

/// The attempts without an end in a run that is not over, by task.
pub fn dangling_attempts(view: &SagaView) -> (r: Vec<Dangling>)
    ensures
        view@.run.status.terminal() ==> r@.len() == 0,
        !view@.run.status.terminal() ==> {
            &&& forall|d: Dangling| r@.contains(d) <==> #[trigger] is_dangling(view@, d)
            &&& forall|i: int, j: int|
                0 <= i < j < r@.len() ==> (#[trigger] r@[i]).task_id < (#[trigger] r@[j]).task_id
        },
{
    let mut out: Vec<Dangling> = Vec::new();
    if view.run.status.is_terminal() {
        return out;
    }
    let ids = keys_of(&view.tasks);
    let mut i: usize = 0;
    while i < ids.len()
        invariant
            i <= ids@.len(),
            ascending(ids@),
            forall|k: u128| ids@.contains(k) <==> view.tasks@.contains_key(k),
            forall|j: int, k: int|
                0 <= j < k < out@.len() ==> (#[trigger] out@[j]).task_id < (
                #[trigger] out@[k]).task_id,
            forall|j: int| 0 <= j < out@.len() ==> is_dangling(view@, #[trigger] out@[j]),
            forall|j: int, k: int|
                0 <= j < out@.len() && i <= k < ids@.len() ==> (#[trigger] out@[j]).task_id < (
                #[trigger] ids@[k]),
            forall|d: Dangling, k: int|
                0 <= k < i && d.task_id == #[trigger] ids@[k] && #[trigger] is_dangling(view@, d)
                    ==> out@.contains(d),
        decreases ids@.len() - i,
    {
        let id: TaskId = ids[i];
        let ghost before = out@;
        let active = match view.tasks.get(&id) {
            Some(task) => if task.status.has_active_attempt() {
                task.active_attempt
            } else {
                None
            },
            None => None,
        };
        if let Some(attempt_id) = active {
            out.push(Dangling { task_id: id, attempt_id });
            assert(out@[before.len() as int] == (Dangling { task_id: id, attempt_id }));
            assert forall|d: Dangling| before.contains(d) implies out@.contains(d) by {
                let j = choose|j: int| 0 <= j < before.len() && before[j] == d;
                assert(out@[j] == d);
            }
        }
        i = i + 1;
    }
    assert forall|d: Dangling| #[trigger] is_dangling(view@, d) implies out@.contains(d) by {
        assert(ids@.contains(d.task_id));
        let k = choose|k: int| 0 <= k < ids@.len() && ids@[k] == d.task_id;
        assert(ids@[k] == d.task_id);
    }
    out
}

/// How such an attempt ends.
pub fn restarted(attempt_id: AttemptId) -> (r: FailAttempt)
    ensures
        r.attempt_id == attempt_id,
        r.class == FailureClass::RuntimeRestarted,
        r.message@ == RUNTIME_RESTARTED@,
        r.usage == Usage::zero_spec(),
{
    FailAttempt {
        attempt_id,
        class: FailureClass::RuntimeRestarted,
        message: RUNTIME_RESTARTED.to_owned(),
        usage: Usage::zero(),
    }
}

/// Whether the run gets an actor when the engine starts.
pub fn needs_actor(view: &SagaView) -> (b: bool)
    ensures
        b == goes_on(view@),
{
    view.run.exists && !view.run.status.is_terminal()
}

impl RunSupervisor {
    /// No actors, and new runs are admitted.
    pub fn new() -> (r: RunSupervisor)
        ensures
            r@ == (SupervisorModel { runs: Set::empty(), admitting: true }),
    {
        RunSupervisor { runs: BTreeSet::new(), admitting: true }
    }

    /// Whether new runs are admitted.
    pub fn is_admitting(&self) -> (b: bool)
        ensures
            b == self@.admitting,
    {
        self.admitting
    }

    /// The number of actors.
    pub fn active_runs(&self) -> (n: usize)
        ensures
            n == self@.runs.len(),
    {
        self.runs.len()
    }

    /// A new run may start, unless the engine drains.
    pub fn check_admission(&self) -> (r: Result<(), PortError>)
        ensures
            admission(self@, r),
    {
        if self.admitting {
            Ok(())
        } else {
            Err(
                PortError::transient(
                    "orchestrator",
                    "draining: not admitting new runs".to_owned(),
                ),
            )
        }
    }

    /// Where an event goes. The first event of a run makes its actor.
    pub fn route(&mut self, run_id: RunId, started: bool) -> (r: Delivery)
        ensures
            event_routed(old(self)@, run_id, started, final(self)@, r),
    {
        if self.runs.contains(&run_id) {
            Delivery::Deliver
        } else if started {
            self.runs.insert(run_id);
            Delivery::SpawnAndDeliver
        } else {
            Delivery::Ignore
        }
    }

    /// The actor of a run is there.
    pub fn on_spawned(&mut self, run_id: RunId)
        ensures
            final(self)@ == (SupervisorModel { runs: old(self)@.runs.insert(run_id), ..old(self)@ }),
    {
        self.runs.insert(run_id);
    }

    /// The actor of a run is gone.
    pub fn on_gone(&mut self, run_id: RunId)
        ensures
            final(self)@ == (SupervisorModel { runs: old(self)@.runs.remove(run_id), ..old(self)@ }),
    {
        self.runs.remove(&run_id);
    }

    /// No new runs from now on.
    pub fn drain(&mut self)
        ensures
            final(self)@ == (SupervisorModel { admitting: false, ..old(self)@ }),
    {
        self.admitting = false;
    }

    /// New runs are admitted again.
    pub fn undrain(&mut self)
        ensures
            final(self)@ == (SupervisorModel { admitting: true, ..old(self)@ }),
    {
        self.admitting = true;
    }

    /// The runs whose actors are to be killed, which is all of them.
    pub fn abort(&mut self) -> (r: BTreeSet<RunId>)
        ensures
            r@ == old(self)@.runs,
            final(self)@ == (SupervisorModel { runs: Set::empty(), ..old(self)@ }),
    {
        let mut runs: BTreeSet<RunId> = BTreeSet::new();
        std::mem::swap(&mut runs, &mut self.runs);
        runs
    }

    /// Whether to go on waiting for the actors to finish.
    pub fn keep_waiting(&self, now: Instant, deadline: Instant) -> (b: bool)
        ensures
            b == (now < deadline && self@.runs.len() > 0),
    {
        now < deadline && self.runs.len() > 0
    }

    /// The runs that get an actor when the engine starts, by id: those that were
    /// started and are not over. Before that, every attempt in them without an end
    /// is to be ended.
    pub fn recover(&mut self, views: &BTreeMap<RunId, SagaView>) -> (r: Vec<RunId>)
        ensures
            ascending(r@),
            forall|id: RunId|
                r@.contains(id) <==> (#[trigger] views@.contains_key(id) && goes_on(views@[id]@)),
            final(self)@ == (SupervisorModel {
                runs: old(self)@.runs.union(r@.to_set()),
                ..old(self)@
            }),
    {
        let ids = keys_of(views);
        let ghost was = self@;
        let mut out: Vec<RunId> = Vec::new();
        let mut i: usize = 0;
        assert(was.runs.union(out@.to_set()) =~= was.runs);
        while i < ids.len()
            invariant
                i <= ids@.len(),
                ascending(ids@),
                forall|k: u128| ids@.contains(k) <==> views@.contains_key(k),
                ascending(out@),
                forall|j: int|
                    0 <= j < out@.len() ==> views@.contains_key(#[trigger] out@[j]) && goes_on(
                        views@[out@[j]]@,
                    ),
                forall|j: int, k: int|
                    0 <= j < out@.len() && i <= k < ids@.len() ==> (#[trigger] out@[j]) < (
                    #[trigger] ids@[k]),
                forall|k: int|
                    0 <= k < i && goes_on(views@[#[trigger] ids@[k]]@) ==> out@.contains(ids@[k]),
                self@ == (SupervisorModel { runs: was.runs.union(out@.to_set()), ..was }),
            decreases ids@.len() - i,
        {
            let id: RunId = ids[i];
            assert(ids@.contains(id));
            let ghost before = out@;
            let needs = match views.get(&id) {
                Some(view) => needs_actor(view),
                None => false,
            };
            if needs {
                self.runs.insert(id);
                out.push(id);
                assert(out@[before.len() as int] == id);
                assert forall|x: RunId| before.contains(x) implies out@.contains(x) by {
                    let j = choose|j: int| 0 <= j < before.len() && before[j] == x;
                    assert(out@[j] == x);
                }
                assert(was.runs.union(out@.to_set()) =~= was.runs.union(before.to_set()).insert(
                    id,
                ));
            }
            i = i + 1;
        }
        assert forall|id: RunId| views@.contains_key(id) && goes_on(
            #[trigger] views@[id]@,
        ) implies out@.contains(id) by {
            assert(ids@.contains(id));
            let k = choose|k: int| 0 <= k < ids@.len() && ids@[k] == id;
            assert(goes_on(views@[ids@[k]]@));
        }
        out
    }
}

// ---------------------------------------------------------------------------
// Laws
// ---------------------------------------------------------------------------
/// A run has one actor: once it is there, even a repeated first event goes to it.
pub proof fn law_a_run_has_one_actor(s: SupervisorModel, run_id: RunId, started: bool)
    requires
        delivery_of(s, run_id, started) == Delivery::SpawnAndDeliver,
    ensures
        ({
            let after = SupervisorModel { runs: s.runs.insert(run_id), ..s };
            delivery_of(after, run_id, started) == Delivery::Deliver
        }),
{
}

/// An attempt ends at most once: tasks have at most one attempt without an end.
pub proof fn law_one_dangling_attempt_per_task(view: SagaModel, a: Dangling, b: Dangling)
    requires
        is_dangling(view, a),
        is_dangling(view, b),
        a.task_id == b.task_id,
    ensures
        a == b,
{
}

/// An event goes to the actor of its run; the first event of a run that has none
/// makes one, and any other event without an actor goes nowhere.
pub proof fn law_events_reach_their_actor(s: SupervisorModel, run_id: RunId, started: bool)
    ensures
        delivery_of(s, run_id, started) == Delivery::Deliver <==> s.runs.contains(run_id),
        delivery_of(s, run_id, started) == Delivery::SpawnAndDeliver <==> !s.runs.contains(run_id)
            && started,
        delivery_of(s, run_id, started) == Delivery::Ignore <==> !s.runs.contains(run_id)
            && !started,
{
}

/// Where an event was delivered there is an actor afterwards, and no other run
/// gained or lost one.
pub proof fn law_a_delivered_event_has_an_actor(
    was: SupervisorModel,
    run_id: RunId,
    started: bool,
    next: SupervisorModel,
    delivery: Delivery,
    other: RunId,
)
    requires
        event_routed(was, run_id, started, next, delivery),
    ensures
        delivery != Delivery::Ignore ==> next.runs.contains(run_id),
        delivery == Delivery::Ignore ==> next == was,
        other != run_id ==> next.runs.contains(other) == was.runs.contains(other),
        next.admitting == was.admitting,
{
}

/// A new run is admitted exactly while the engine does not drain; a refused one
/// may be tried again later.
pub proof fn law_a_draining_engine_admits_nothing(
    s: SupervisorModel,
    r: Result<(), PortError>,
)
    requires
        admission(s, r),
    ensures
        r is Ok <==> s.admitting,
        r matches Err(error) ==> error.class == FailureClass::Transient,
{
}

/// The attempts that are ended when the engine starts are those that were running
/// or waiting for input, each with the attempt that was open.
pub proof fn law_open_attempts_are_dangling(view: SagaModel, task_id: TaskId, attempt_id: AttemptId)
    requires
        view.tasks.contains_key(task_id),
    ensures
        is_dangling(view, Dangling { task_id, attempt_id }) <==> (view.tasks[task_id].status
            == TaskStatus::Running || view.tasks[task_id].status == TaskStatus::AwaitingInput)
            && view.tasks[task_id].active_attempt == Some(attempt_id),
{
}

/// A run goes on after a restart exactly when it was started and neither completed
/// nor failed nor was cancelled.
pub proof fn law_unfinished_runs_go_on(view: SagaModel)
    ensures
        goes_on(view) <==> view.run.exists && view.run.status != RunStatus::Completed
            && view.run.status != RunStatus::Failed && view.run.status != RunStatus::Cancelled,
{
}

/// The events of a run are its own, all of them, in the order of the log.
pub proof fn law_a_run_gets_its_own_events(
    log: Seq<LoggedEvent>,
    event: LoggedEvent,
    run_id: RunId,
)
    ensures
        of_run(Seq::empty(), run_id).len() == 0,
        event.run_id == run_id ==> of_run(log.push(event), run_id) == of_run(log, run_id).push(
            event.envelope,
        ),
        event.run_id != run_id ==> of_run(log.push(event), run_id) == of_run(log, run_id),
{
    assert(log.push(event).drop_last() =~= log);
}

/// A log is read on behind the last event of a page, until a page is empty.
pub proof fn law_a_log_is_read_to_its_end(page: Seq<LoggedEvent>)
    ensures
        page_end(page) is None <==> page.len() == 0,
        page.len() > 0 ==> page_end(page) == Some(page[page.len() - 1].position),
{
}

} // verus!
