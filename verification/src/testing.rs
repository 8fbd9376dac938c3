//! Scripted stand-ins for the ports, without subprocesses, repositories or
//! networks.
use std::collections::BTreeMap;

use vstd::prelude::*;

use crate::domain::{
    clone_text, ArtifactKind, ArtifactRef, FailureClass, Route, RunId, Span, TaskId, Usage,
    WorkerKind, Workspace, WorkspaceKind,
};
use crate::ids::{uuid_text, uuid_text_of};
use crate::ports::{
    copy_answers, AnsweredQuestion, IntegrationOutcome, IntegrationSummary, Lesson, PortError,
    PrepareWorkspace, RecordRouteOutcome, RoleContext, RouteSelection, SelectRouteQuery,
};
use crate::roles::context::{Plan, SystemContextSection, Understanding};
use crate::run_actor::integration::RunEvaluation;
use crate::text::{cat, cat3, copy_strings, same};

verus! {

broadcast use vstd::std_specs::btree::group_btree_axioms;

// ---------------------------------------------------------------------------
// Command log
// ---------------------------------------------------------------------------
/// The results of processed commands, as JSON text, by command.
#[derive(Debug)]
pub struct InMemoryCommands {
    pub results: BTreeMap<u128, String>,
}

impl View for InMemoryCommands {
    type V = Map<u128, String>;

    open spec fn view(&self) -> Map<u128, String> {
        self.results@
    }
}

impl InMemoryCommands {
    /// An empty log.
    pub fn new() -> (r: InMemoryCommands)
        ensures
            r@ == Map::<u128, String>::empty(),
    {
        InMemoryCommands { results: BTreeMap::new() }
    }

    /// The number of commands.
    pub fn len(&self) -> (n: usize)
        ensures
            n == self@.dom().len(),
    {
        self.results.len()
    }

    /// Whether there is no command.
    pub fn is_empty(&self) -> (b: bool)
        ensures
            b == (self@.dom().len() == 0),
    {
        self.results.len() == 0
    }

    /// The result of a command that was processed.
    pub fn begin(&self, command_id: u128) -> (r: Option<String>)
        ensures
            r == (if self@.contains_key(command_id) {
                Some(self@[command_id])
            } else {
                None
            }),
    {
        match self.results.get(&command_id) {
            Some(result) => Some(result.clone()),
            None => None,
        }
    }

    /// Records the result of a command, unless it has one; the result that
    /// stands.
    pub fn complete(&mut self, command_id: u128, result: String) -> (r: String)
        ensures
            final(self)@ == completed(old(self)@, command_id, result),
            r == final(self)@[command_id],
    {
        let known = match self.results.get(&command_id) {
            Some(known) => Some(known.clone()),
            None => None,
        };
        match known {
            Some(known) => known,
            None => {
                self.results.insert(command_id, result.clone());
                result
            },
        }
    }
}

/// The log after a command was completed.
pub open spec fn completed(log: Map<u128, String>, command_id: u128, result: String) -> Map<
    u128,
    String,
> {
    if log.contains_key(command_id) {
        log
    } else {
        log.insert(command_id, result)
    }
}

/// The first result of a command stands.
pub proof fn law_the_first_result_stands(
    log: Map<u128, String>,
    command_id: u128,
    first: String,
    second: String,
)
    requires
        !log.contains_key(command_id),
    ensures
        completed(completed(log, command_id, first), command_id, second) == completed(
            log,
            command_id,
            first,
        ),
        completed(log, command_id, first)[command_id] == first,
{
}

// ---------------------------------------------------------------------------
// Router
// ---------------------------------------------------------------------------
/// A router over a fixed list of routes.
#[derive(Debug, PartialEq, Eq)]
pub struct FixedRouter {
    pub routes: Vec<Route>,
    /// In order.
    pub outcomes: Vec<RecordRouteOutcome>,
    /// In order.
    pub selections: Vec<SelectRouteQuery>,
}

/// One of the aliases is this one.
pub open spec fn names(aliases: Seq<String>, alias: Seq<char>) -> bool {
    exists|i: int| 0 <= i < aliases.len() && (#[trigger] aliases[i])@ == alias
}

/// The first route that is not left out, or else the first one.
pub open spec fn is_choice(routes: Seq<Route>, exclude: Seq<String>, i: int) -> bool {
    &&& 0 <= i < routes.len()
    &&& if names(exclude, routes[i].model@) {
        i == 0 && forall|k: int|
            0 <= k < routes.len() ==> names(exclude, (#[trigger] routes[k]).model@)
    } else {
        forall|k: int| 0 <= k < i ==> names(exclude, (#[trigger] routes[k]).model@)
    }
}

fn is_named(aliases: &Vec<String>, alias: &str) -> (b: bool)
    ensures
        b == names(aliases@, alias@),
{
    let mut i: usize = 0;
    while i < aliases.len()
        invariant
            i <= aliases@.len(),
            forall|k: int| 0 <= k < i ==> (#[trigger] aliases@[k])@ != alias@,
        decreases aliases@.len() - i,
    {
        if same(aliases[i].as_str(), alias) {
            assert(aliases@[i as int]@ == alias@);
            return true;
        }
        i = i + 1;
    }
    false
}

impl FixedRouter {
    /// A router over `routes`, the first preferred.
    pub fn new(routes: Vec<Route>) -> (r: FixedRouter)
        ensures
            r.routes == routes,
            r.outcomes@.len() == 0,
            r.selections@.len() == 0,
    {
        FixedRouter { routes, outcomes: Vec::new(), selections: Vec::new() }
    }

    /// A router with one route.
    pub fn single(route: Route) -> (r: FixedRouter)
        ensures
            r.routes@ == seq![route],
            r.outcomes@.len() == 0,
            r.selections@.len() == 0,
    {
        let mut routes: Vec<Route> = Vec::new();
        routes.push(route);
        FixedRouter::new(routes)
    }

    /// A route was selected, and the query remembered.
    pub open spec fn selected(
        self,
        query: SelectRouteQuery,
        after: FixedRouter,
        r: Result<RouteSelection, PortError>,
    ) -> bool {
        &&& after.routes@ == self.routes@
        &&& after.outcomes@ == self.outcomes@
        &&& after.selections@ == self.selections@.push(query)
        &&& match r {
            Ok(selection) => exists|i: int| #[trigger]
                is_choice(self.routes@, query.exclude@, i) && selection.is_fixed(self.routes@[i]),
            Err(error) => self.routes@.len() == 0 && error.port@ == "router"@ && error.message@
                == "no candidate routes"@ && error.class == FailureClass::Permanent,
        }
    }

    /// Selects the first route that is not left out, or else the first one, and
    /// remembers the query. Without routes it fails.
    pub fn select(&mut self, query: SelectRouteQuery) -> (r: Result<RouteSelection, PortError>)
        ensures
            old(self).selected(query, *final(self), r),
    {
        let mut choice: Option<usize> = None;
        let mut i: usize = 0;
        while i < self.routes.len() && choice.is_none()
            invariant
                i <= self.routes@.len(),
                match choice {
                    Some(c) => c < self.routes@.len() && is_choice(
                        self.routes@,
                        query.exclude@,
                        c as int,
                    ),
                    None => forall|k: int|
                        0 <= k < i ==> names(query.exclude@, (#[trigger] self.routes@[k]).model@),
                },
            decreases
                    (if choice is None {
                        self.routes@.len() + 1 - i
                    } else {
                        0
                    }),
        {
            if !is_named(&query.exclude, self.routes[i].model.as_str()) {
                assert(is_choice(self.routes@, query.exclude@, i as int));
                choice = Some(i);
            } else {
                i = i + 1;
            }
        }
        let n: usize = self.routes.len();
        let selected = match choice {
            Some(c) => Ok(RouteSelection::fixed(self.routes[c].clone())),
            None => if n == 0 {
                Err(PortError::permanent("router", "no candidate routes".to_owned()))
            } else {
                assert(is_choice(self.routes@, query.exclude@, 0));
                Ok(RouteSelection::fixed(self.routes[0].clone()))
            },
        };
        self.selections.push(query);
        selected
    }

    /// Remembers an outcome.
    pub fn record_outcome(&mut self, outcome: RecordRouteOutcome)
        ensures
            final(self).routes@ == old(self).routes@,
            final(self).selections@ == old(self).selections@,
            final(self).outcomes@ == old(self).outcomes@.push(outcome),
    {
        self.outcomes.push(outcome);
    }

    /// The outcomes that were recorded.
    pub fn outcomes(&self) -> (r: &Vec<RecordRouteOutcome>)
        ensures
            *r == self.outcomes,
    {
        &self.outcomes
    }

    /// The queries that came in.
    pub fn selections(&self) -> (r: &Vec<SelectRouteQuery>)
        ensures
            *r == self.selections,
    {
        &self.selections
    }
}

// ---------------------------------------------------------------------------
// Scripts
// ---------------------------------------------------------------------------
/// Answers in order; the last one repeats.
#[derive(Debug, PartialEq, Eq)]
pub struct Script<T> {
    pub entries: Vec<T>,
    pub next: usize,
}

/// The answers that are left after one was taken.
pub open spec fn popped<T>(left: Seq<T>) -> Seq<T> {
    if left.len() > 1 {
        left.subrange(1, left.len() as int)
    } else {
        left
    }
}

impl<T> Script<T> {
    /// The answers that are left; those that were given have no part in what comes.
    pub open spec fn left(self) -> Seq<T> {
        self.entries@.subrange(self.next as int, self.entries@.len() as int)
    }

    pub open spec fn wf(self) -> bool {
        self.next <= self.entries@.len() && (self.entries@.len() > 0 ==> self.next
            < self.entries@.len())
    }

    /// No answers.
    pub fn new() -> (r: Script<T>)
        ensures
            r.wf(),
            r.left() == Seq::<T>::empty(),
    {
        Script { entries: Vec::new(), next: 0 }
    }

    /// One answer more.
    pub fn queue(&mut self, entry: T)
        requires
            old(self).wf(),
        ensures
            final(self).wf(),
            final(self).left() == old(self).left().push(entry),
    {
        self.entries.push(entry);
        assert(self.left() =~= old(self).left().push(entry));
    }

    /// The next answer; the last one stays.
    pub fn pop(&mut self) -> (r: Option<&T>)
        requires
            old(self).wf(),
        ensures
            final(self).wf(),
            match r {
                Some(entry) => old(self).left().len() > 0 && *entry == old(self).left()[0],
                None => old(self).left().len() == 0,
            },
            final(self).left() == popped(old(self).left()),
    {
        let n: usize = self.entries.len();
        if n == 0 {
            return None;
        }
        let at: usize = self.next;
        if n - at > 1 {
            self.next = at + 1;
            assert(self.left() =~= old(self).left().subrange(1, old(self).left().len() as int));
        }
        Some(&self.entries[at])
    }
}

/// A script never runs dry: the last answer repeats.
pub proof fn law_the_last_answer_repeats<T>(left: Seq<T>)
    requires
        left.len() > 0,
    ensures
        popped(left).len() > 0,
        popped(left).last() == left.last(),
        left.len() == 1 ==> popped(left) == left,
{
}

/// The answers that are left after `n` were taken.
pub open spec fn popped_times<T>(left: Seq<T>, n: nat) -> Seq<T>
    decreases n,
{
    if n == 0 {
        left
    } else {
        popped(popped_times(left, (n - 1) as nat))
    }
}

/// The answers come in the order in which they were queued, one per call, and
/// from the last one on it is the last one again.
pub proof fn law_answers_come_in_order<T>(left: Seq<T>, n: nat)
    requires
        left.len() > 0,
    ensures
        popped_times(left, n).len() > 0,
        popped_times(left, n)[0] == (if n < left.len() {
            left[n as int]
        } else {
            left.last()
        }),
{
    lemma_popped_times(left, n);
}

proof fn lemma_popped_times<T>(left: Seq<T>, n: nat)
    requires
        left.len() > 0,
    ensures
        popped_times(left, n) == left.subrange(
            if n < left.len() {
                n as int
            } else {
                left.len() - 1
            },
            left.len() as int,
        ),
    decreases n,
{
    if n == 0 {
        assert(left.subrange(0, left.len() as int) =~= left);
    } else {
        lemma_popped_times(left, (n - 1) as nat);
    }
}

// ---------------------------------------------------------------------------
// Roles
// ---------------------------------------------------------------------------
/// A scripted answer of a role.
#[derive(Debug, PartialEq, Eq)]
pub enum Scripted<T> {
    Answer(T, Usage),
    Failure(String, FailureClass),
}

/// What a planner's second call was given.
#[derive(Debug, PartialEq, Eq)]
pub struct PlanCall {
    pub answers: Vec<AnsweredQuestion>,
    pub repair_errors: Vec<String>,
    pub feedback: Option<String>,
    pub memory: Option<String>,
    /// Titles of the platform's sections.
    pub system_context: Vec<String>,
}

/// A role's call.
#[derive(Debug, Clone, Copy, PartialEq, Eq, Structural)]
pub enum CallName {
    Understanding,
    Plan,
    Integrate,
}

impl CallName {
    pub open spec fn name(self) -> Seq<char> {
        match self {
            CallName::Understanding => "understanding"@,
            CallName::Plan => "plan"@,
            CallName::Integrate => "integrate"@,
        }
    }

    /// The name of the call.
    pub fn as_str(self) -> (r: &'static str)
        ensures
            r@ == self.name(),
    {
        match self {
            CallName::Understanding => "understanding",
            CallName::Plan => "plan",
            CallName::Integrate => "integrate",
        }
    }
}

/// Answers of the planner and the integrator.
#[derive(Debug, PartialEq, Eq)]
pub struct ScriptedRoles {
    pub understandings: Script<Scripted<Understanding>>,
    pub plans: Script<Scripted<Plan>>,
    pub summary: String,
    /// In order.
    pub calls: Vec<CallName>,
    /// In order.
    pub plan_contexts: Vec<PlanCall>,
}

/// What a script says next, as a port's answer.
pub open spec fn scripted_reply<T>(
    left: Seq<Scripted<T>>,
    role: Seq<char>,
    r: Result<(&T, Usage), PortError>,
) -> bool {
    if left.len() == 0 {
        r matches Err(error) && error.port@ == "roles"@ && error.message@
            == "no scripted answer for the `"@ + role + "` role"@ && error.class
            == FailureClass::Permanent
    } else {
        match left[0] {
            Scripted::Answer(value, usage) => r matches Ok((v, u)) && *v == value && u == usage,
            Scripted::Failure(message, class) => r matches Err(error) && error.port@ == "roles"@
                && error.message == message && error.class == class,
        }
    }
}

fn reply<'a, T>(entry: Option<&'a Scripted<T>>, role: &str) -> (r: Result<
    (&'a T, Usage),
    PortError,
>)
    ensures
        match entry {
            None => scripted_reply(Seq::<Scripted<T>>::empty(), role@, r),
            Some(e) => scripted_reply(seq![*e], role@, r),
        },
{
    match entry {
        Some(Scripted::Answer(value, usage)) => Ok((value, *usage)),
        Some(Scripted::Failure(message, class)) => Err(
            PortError { port: "roles", message: message.clone(), class: *class },
        ),
        None => {
            let message = cat3("no scripted answer for the `", role, "` role");
            Err(PortError::permanent("roles", message))
        },
    }
}

fn titles(sections: &Vec<SystemContextSection>) -> (r: Vec<String>)
    ensures
        r@ == sections@.map_values(|s: SystemContextSection| s.title),
{
    let ghost all = sections@.map_values(|s: SystemContextSection| s.title);
    let mut out: Vec<String> = Vec::new();
    let mut i: usize = 0;
    while i < sections.len()
        invariant
            i <= sections@.len(),
            all == sections@.map_values(|s: SystemContextSection| s.title),
            out@ == all.subrange(0, i as int),
        decreases sections@.len() - i,
    {
        out.push(sections[i].title.clone());
        i = i + 1;
        assert(out@ =~= all.subrange(0, i as int));
    }
    assert(all.subrange(0, all.len() as int) =~= all);
    out
}

/// The number of planning calls.
pub open spec fn plan_count(calls: Seq<CallName>) -> nat {
    calls.filter(|c: CallName| c == CallName::Plan).len()
}

impl ScriptedRoles {
    pub open spec fn wf(self) -> bool {
        self.understandings.wf() && self.plans.wf()
    }

    /// Nothing scripted.
    pub fn new() -> (r: ScriptedRoles)
        ensures
            r.wf(),
            r.understandings.left().len() == 0,
            r.plans.left().len() == 0,
            r.summary@.len() == 0,
            r.calls@.len() == 0,
            r.plan_contexts@.len() == 0,
    {
        ScriptedRoles {
            understandings: Script::new(),
            plans: Script::new(),
            summary: String::new(),
            calls: Vec::new(),
            plan_contexts: Vec::new(),
        }
    }

    /// Queues an understanding.
    pub fn with_understanding(self, understanding: Understanding) -> (r: ScriptedRoles)
        requires
            self.wf(),
        ensures
            r.wf(),
            r.understandings.left() == self.understandings.left().push(
                Scripted::Answer(understanding, Usage::zero_spec()),
            ),
            r == (ScriptedRoles { understandings: r.understandings, ..self }),
    {
        let mut r = self;
        r.understandings.queue(Scripted::Answer(understanding, Usage::zero()));
        r
    }

    /// Queues a failure to understand.
    pub fn with_understanding_error(self, message: &str, class: FailureClass) -> (r: ScriptedRoles)
        requires
            self.wf(),
        ensures
            r.wf(),
            r == (ScriptedRoles { understandings: r.understandings, ..self }),
            r.understandings.left().drop_last() == self.understandings.left(),
            r.understandings.left().len() > 0,
            r.understandings.left().last() matches Scripted::Failure(m, c) && m@ == message@ && c
                == class,
    {
        let mut r = self;
        let entry = Scripted::Failure(message.to_owned(), class);
        r.understandings.queue(entry);
        assert(r.understandings.left().drop_last() =~= self.understandings.left());
        r
    }

    /// Queues a plan.
    pub fn with_plan(self, plan: Plan) -> (r: ScriptedRoles)
        requires
            self.wf(),
        ensures
            r.wf(),
            r.plans.left() == self.plans.left().push(Scripted::Answer(plan, Usage::zero_spec())),
            r == (ScriptedRoles { plans: r.plans, ..self }),
    {
        self.with_plan_usage(plan, Usage::zero())
    }

    /// Queues a plan with its usage.
    pub fn with_plan_usage(self, plan: Plan, usage: Usage) -> (r: ScriptedRoles)
        requires
            self.wf(),
        ensures
            r.wf(),
            r.plans.left() == self.plans.left().push(Scripted::Answer(plan, usage)),
            r == (ScriptedRoles { plans: r.plans, ..self }),
    {
        let mut r = self;
        r.plans.queue(Scripted::Answer(plan, usage));
        r
    }

    /// Sets the integrator's summary.
    pub fn with_summary(self, summary: &str) -> (r: ScriptedRoles)
        ensures
            r.summary@ == summary@,
            r == (ScriptedRoles { summary: r.summary, ..self }),
    {
        let mut r = self;
        r.summary = summary.to_owned();
        r
    }

    /// The number of planning calls.
    pub fn plan_calls(&self) -> (n: usize)
        ensures
            n == plan_count(self.calls@),
    {
        let ghost keep = |c: CallName| c == CallName::Plan;
        let mut n: usize = 0;
        let mut i: usize = 0;
        assert(self.calls@.subrange(0, 0).filter(keep).len() == 0) by {
            reveal(Seq::filter);
        }
        while i < self.calls.len()
            invariant
                i <= self.calls@.len(),
                n <= i,
                keep == (|c: CallName| c == CallName::Plan),
                n == self.calls@.subrange(0, i as int).filter(keep).len(),
            decreases self.calls@.len() - i,
        {
            proof {
                let s = self.calls@.subrange(0, i as int);
                assert(self.calls@.subrange(0, i + 1) =~= s.push(self.calls@[i as int]));
                assert(s.push(self.calls@[i as int]).drop_last() =~= s);
                reveal(Seq::filter);
            }
            if self.calls[i] == CallName::Plan {
                n = n + 1;
            }
            i = i + 1;
        }
        assert(self.calls@.subrange(0, self.calls@.len() as int) =~= self.calls@);
        n
    }

    /// Answers the planner's first call.
    pub fn understanding(&mut self) -> (r: Result<(&Understanding, Usage), PortError>)
        requires
            old(self).wf(),
        ensures
            final(self).wf(),
            scripted_reply(old(self).understandings.left(), "understanding"@, r),
            final(self).understandings.left() == popped(old(self).understandings.left()),
            final(self).calls@ == old(self).calls@.push(CallName::Understanding),
            final(self).plans == old(self).plans,
            final(self).summary == old(self).summary,
            final(self).plan_contexts@ == old(self).plan_contexts@,
    {
        self.calls.push(CallName::Understanding);
        let entry = self.understandings.pop();
        reply(entry, "understanding")
    }

    /// Answers the planner's second call, and remembers what it was given.
    pub fn plan(&mut self, ctx: &RoleContext) -> (r: Result<(&Plan, Usage), PortError>)
        requires
            old(self).wf(),
        ensures
            final(self).wf(),
            scripted_reply(old(self).plans.left(), "plan"@, r),
            final(self).plans.left() == popped(old(self).plans.left()),
            final(self).calls@ == old(self).calls@.push(CallName::Plan),
            final(self).understandings == old(self).understandings,
            final(self).summary == old(self).summary,
            final(self).plan_contexts@.len() == old(self).plan_contexts@.len() + 1,
            final(self).plan_contexts@.drop_last() == old(self).plan_contexts@,
            ({
                let call = final(self).plan_contexts@.last();
                &&& call.answers@ == ctx.answers@
                &&& call.repair_errors@ == ctx.repair_errors@
                &&& call.feedback == ctx.feedback
                &&& call.memory == ctx.memory
                &&& call.system_context@ == ctx.system_context@.map_values(
                    |s: SystemContextSection| s.title,
                )
            }),
    {
        self.calls.push(CallName::Plan);
        let call = PlanCall {
            answers: copy_answers(&ctx.answers),
            repair_errors: copy_strings(&ctx.repair_errors),
            feedback: clone_text(&ctx.feedback),
            memory: clone_text(&ctx.memory),
            system_context: titles(&ctx.system_context),
        };
        self.plan_contexts.push(call);
        assert(self.plan_contexts@.drop_last() =~= old(self).plan_contexts@);
        let entry = self.plans.pop();
        reply(entry, "plan")
    }

    /// Answers the integrator's call.
    pub fn integrate(&mut self) -> (r: (IntegrationSummary, Usage))
        ensures
            r.1 == Usage::zero_spec(),
            r.0.summary@ == (if old(self).summary@.len() == 0 {
                "integrated"@
            } else {
                old(self).summary@
            }),
            final(self).calls@ == old(self).calls@.push(CallName::Integrate),
            final(self).understandings == old(self).understandings,
            final(self).plans == old(self).plans,
            final(self).summary == old(self).summary,
            final(self).plan_contexts@ == old(self).plan_contexts@,
    {
        self.calls.push(CallName::Integrate);
        let summary = if self.summary.as_str().unicode_len() == 0 {
            "integrated".to_owned()
        } else {
            self.summary.clone()
        };
        (IntegrationSummary { summary }, Usage::zero())
    }

    /// The names of the calls, in order.
    pub fn calls(&self) -> (r: Vec<&'static str>)
        ensures
            r@.len() == self.calls@.len(),
            forall|i: int| 0 <= i < r@.len() ==> (#[trigger] r@[i])@ == self.calls@[i].name(),
    {
        let mut out: Vec<&'static str> = Vec::new();
        let mut i: usize = 0;
        while i < self.calls.len()
            invariant
                i <= self.calls@.len(),
                out@.len() == i,
                forall|k: int| 0 <= k < i ==> (#[trigger] out@[k])@ == self.calls@[k].name(),
            decreases self.calls@.len() - i,
        {
            out.push(self.calls[i].as_str());
            i = i + 1;
        }
        out
    }

    /// What the planner was given, by call.
    pub fn plan_contexts(&self) -> (r: &Vec<PlanCall>)
        ensures
            *r == self.plan_contexts,
    {
        &self.plan_contexts
    }
}

// ---------------------------------------------------------------------------
// Workspaces
// ---------------------------------------------------------------------------
/// The path of `name` in the directory `base`.
pub open spec fn joined_path(base: Seq<char>, name: Seq<char>) -> Seq<char> {
    if base.len() == 0 || base.last() == '/' {
        base + name
    } else {
        base + "/"@ + name
    }
}

fn join_path(base: &str, name: &str) -> (r: String)
    ensures
        r@ == joined_path(base@, name@),
{
    let n: usize = base.unicode_len();
    if n == 0 || base.get_char(n - 1) == '/' {
        cat(base, name)
    } else {
        cat3(base, "/", name)
    }
}

/// The directory of a task under `root`: one for the run, and in it one for the
/// task.
pub open spec fn task_dir(root: Seq<char>, run_id: RunId, task_id: TaskId) -> Seq<char> {
    joined_path(joined_path(root, uuid_text_of(run_id)), uuid_text_of(task_id))
}

/// Workspaces that are handed out under one root and integrations that are
/// answered from a script.
#[derive(Debug, PartialEq, Eq)]
pub struct TempWorkspaces {
    pub root: String,
    pub integrations: Script<IntegrationOutcome>,
    pub prepared: u64,
    pub cleaned: u64,
    pub integrated: u64,
}

impl TempWorkspaces {
    pub open spec fn wf(self) -> bool {
        self.integrations.wf()
    }

    /// Workspaces under `root`: nothing scripted, nothing handed out.
    pub fn new(root: String) -> (r: TempWorkspaces)
        ensures
            r.wf(),
            r.root == root,
            r.integrations.left().len() == 0,
            r.prepared == 0,
            r.cleaned == 0,
            r.integrated == 0,
    {
        TempWorkspaces {
            root,
            integrations: Script::new(),
            prepared: 0,
            cleaned: 0,
            integrated: 0,
        }
    }

    /// Queues the answer of an integration.
    pub fn with_integration(self, outcome: IntegrationOutcome) -> (r: TempWorkspaces)
        requires
            self.wf(),
        ensures
            r.wf(),
            r.integrations.left() == self.integrations.left().push(outcome),
            r == (TempWorkspaces { integrations: r.integrations, ..self }),
    {
        let mut r = self;
        r.integrations.queue(outcome);
        r
    }

    /// Queues an integration with conflicts.
    pub fn with_conflicts(self, conflicts: Vec<String>) -> (r: TempWorkspaces)
        requires
            self.wf(),
        ensures
            r.wf(),
            r == (TempWorkspaces { integrations: r.integrations, ..self }),
            r.integrations.left().drop_last() == self.integrations.left(),
            r.integrations.left().len() > 0,
            r.integrations.left().last().conflicts == conflicts,
            r.integrations.left().last().artifacts@.len() == 0,
    {
        let r = self.with_integration(IntegrationOutcome { artifacts: Vec::new(), conflicts });
        assert(r.integrations.left().drop_last() =~= self.integrations.left());
        r
    }

    /// The directory of a task, which the caller makes.
    pub fn dir(&self, run_id: RunId, task_id: TaskId) -> (r: String)
        ensures
            r@ == task_dir(self.root@, run_id, task_id),
    {
        let run = uuid_text(run_id);
        let task = uuid_text(task_id);
        let base = join_path(self.root.as_str(), run.as_str());
        join_path(base.as_str(), task.as_str())
    }

    /// Hands out the workspace of a task in its directory.
    pub fn prepare(&mut self, request: &PrepareWorkspace) -> (r: Workspace)
        requires
            old(self).prepared < u64::MAX,
        ensures
            *final(self) == (TempWorkspaces { prepared: (old(self).prepared + 1) as u64, ..*old(
                self,
            ) }),
            r.root@ == task_dir(old(self).root@, request.run_id, request.task_id),
            r.kind matches WorkspaceKind::GitWorktree { branch } && branch@ == "kevin/"@
                + uuid_text_of(request.task_id),
            r.base_rev is None,
    {
        self.prepared = self.prepared + 1;
        let id_text = uuid_text(request.task_id);
        Workspace {
            root: self.dir(request.run_id, request.task_id),
            kind: WorkspaceKind::GitWorktree { branch: cat("kevin/", id_text.as_str()) },
            base_rev: None,
        }
    }

    /// Counts a clean-up.
    pub fn cleanup(&mut self)
        requires
            old(self).cleaned < u64::MAX,
        ensures
            *final(self) == (TempWorkspaces { cleaned: (old(self).cleaned + 1) as u64, ..*old(self)
            }),
    {
        self.cleaned = self.cleaned + 1;
    }

    /// The scripted answer of an integration; `None` where nothing is scripted.
    pub fn integrate(&mut self) -> (r: Option<&IntegrationOutcome>)
        requires
            old(self).wf(),
            old(self).integrated < u64::MAX,
        ensures
            final(self).wf(),
            final(self).integrated == old(self).integrated + 1,
            final(self).prepared == old(self).prepared,
            final(self).cleaned == old(self).cleaned,
            match r {
                Some(outcome) => old(self).integrations.left().len() > 0 && *outcome == old(
                    self,
                ).integrations.left()[0],
                None => old(self).integrations.left().len() == 0,
            },
            final(self).integrations.left() == popped(old(self).integrations.left()),
            final(self).root == old(self).root,
    {
        self.integrated = self.integrated + 1;
        self.integrations.pop()
    }

    /// The answer where nothing is scripted: one pull request, nothing conflicted.
    pub fn default_integration(run_id: RunId, artifact_id: u128) -> (r: IntegrationOutcome)
        ensures
            r.conflicts@.len() == 0,
            r.artifacts@.len() == 1,
            r.artifacts@[0].id == artifact_id,
            r.artifacts@[0].kind == ArtifactKind::PrUrl,
            r.artifacts@[0].uri@ == "https://example.invalid/pr/"@ + uuid_text_of(run_id),
            r.artifacts@[0].sha256 is None,
            r.artifacts@[0].bytes is None,
    {
        let id_text = uuid_text(run_id);
        let mut artifacts: Vec<ArtifactRef> = Vec::new();
        artifacts.push(
            ArtifactRef {
                id: artifact_id,
                kind: ArtifactKind::PrUrl,
                uri: cat("https://example.invalid/pr/", id_text.as_str()),
                sha256: None,
                bytes: None,
            },
        );
        IntegrationOutcome { artifacts, conflicts: Vec::new() }
    }

    /// How many workspaces were prepared.
    pub fn prepared(&self) -> (r: u64)
        ensures
            r == self.prepared,
    {
        self.prepared
    }

    /// How many were cleaned up.
    pub fn cleaned(&self) -> (r: u64)
        ensures
            r == self.cleaned,
    {
        self.cleaned
    }

    /// How often results were integrated.
    pub fn integrations(&self) -> (r: u64)
        ensures
            r == self.integrated,
    {
        self.integrated
    }
}

// ---------------------------------------------------------------------------
// Memory, judge, routes, workers
// ---------------------------------------------------------------------------
/// A memory with a canned context, which remembers lessons.
#[derive(Debug, PartialEq, Eq)]
pub struct RecordingMemory {
    pub context: Option<String>,
    pub lessons: Vec<Lesson>,
}

impl RecordingMemory {
    /// A memory that always answers `context`.
    pub fn with_context(context: &str) -> (r: RecordingMemory)
        ensures
            r.context matches Some(c) && c@ == context@,
            r.lessons@.len() == 0,
    {
        RecordingMemory { context: Some(context.to_owned()), lessons: Vec::new() }
    }

    /// The canned context.
    pub fn context_for_intake(&self) -> (r: Option<String>)
        ensures
            r == self.context,
    {
        clone_text(&self.context)
    }

    /// Remembers a lesson.
    pub fn store_lesson(&mut self, lesson: Lesson)
        ensures
            final(self).context == old(self).context,
            final(self).lessons@ == old(self).lessons@.push(lesson),
    {
        self.lessons.push(lesson);
    }

    /// The lessons that were stored.
    pub fn lessons(&self) -> (r: &Vec<Lesson>)
        ensures
            *r == self.lessons,
    {
        &self.lessons
    }
}

/// A judge with a canned verdict.
#[derive(Debug, PartialEq, Eq)]
pub struct ScriptedEvaluator {
    pub evaluation: Option<RunEvaluation>,
    /// How long it takes to answer.
    pub delay: Span,
    pub calls: u64,
}

impl ScriptedEvaluator {
    /// A judge that always answers `evaluation`, at once.
    pub fn new(evaluation: Option<RunEvaluation>) -> (r: ScriptedEvaluator)
        ensures
            r == (ScriptedEvaluator { evaluation, delay: Span { secs: 0, nanos: 0 }, calls: 0 }),
    {
        ScriptedEvaluator { evaluation, delay: Span { secs: 0, nanos: 0 }, calls: 0 }
    }

    /// A judge that takes its time and has no verdict then.
    pub fn slow(delay: Span) -> (r: ScriptedEvaluator)
        ensures
            r == (ScriptedEvaluator { evaluation: None, delay, calls: 0 }),
    {
        ScriptedEvaluator { evaluation: None, delay, calls: 0 }
    }

    /// The canned verdict, counted.
    pub fn evaluate_run(&mut self) -> (r: Option<&RunEvaluation>)
        requires
            old(self).calls < u64::MAX,
        ensures
            *final(self) == (ScriptedEvaluator { calls: (old(self).calls + 1) as u64, ..*old(self)
            }),
            match old(self).evaluation {
                Some(e) => r == Some(&e),
                None => r is None,
            },
    {
        self.calls = self.calls + 1;
        match &self.evaluation {
            Some(e) => Some(e),
            None => None,
        }
    }

    /// How often a run was judged.
    pub fn calls(&self) -> (r: u64)
        ensures
            r == self.calls,
    {
        self.calls
    }
}

/// The worker kind of the fake worker.
pub const FAKE: &'static str = "fake";

fn route_to_fake(model: &str) -> (r: Route)
    ensures
        r.worker.name@ == FAKE@,
        r.model@ == model@,
        r.effort is None,
{
    Route { worker: WorkerKind { name: FAKE.to_owned() }, model: model.to_owned(), effort: None }
}

/// The route to the fake worker.
pub fn fake_route() -> (r: Route)
    ensures
        r.worker.name@ == FAKE@,
        r.model@ == "fake"@,
        r.effort is None,
{
    route_to_fake("fake")
}

/// Another alias of the fake worker.
pub fn fake_alt_route() -> (r: Route)
    ensures
        r.worker.name@ == FAKE@,
        r.model@ == "fake-alt"@,
        r.effort is None,
{
    route_to_fake("fake-alt")
}

/// A worker that fails the first attempts of every task.
#[derive(Debug)]
pub struct FlakyWorker {
    pub fail_first: u64,
    pub class: FailureClass,
    pub seen: BTreeMap<TaskId, u64>,
}

/// How often a task was attempted.
pub open spec fn attempts_of(seen: Map<TaskId, u64>, task_id: TaskId) -> u64 {
    if seen.contains_key(task_id) {
        seen[task_id]
    } else {
        0
    }
}

impl FlakyWorker {
    /// Fails the first `fail_first` attempts of every task with `class`.
    pub fn new(fail_first: u64, class: FailureClass) -> (r: FlakyWorker)
        ensures
            r.fail_first == fail_first,
            r.class == class,
            r.seen@ == Map::<TaskId, u64>::empty(),
    {
        FlakyWorker { fail_first, class, seen: BTreeMap::new() }
    }

    /// How often a task was attempted.
    pub fn attempts(&self, task_id: TaskId) -> (n: u64)
        ensures
            n == attempts_of(self.seen@, task_id),
    {
        match self.seen.get(&task_id) {
            Some(n) => *n,
            None => 0,
        }
    }

    /// An attempt of the task was counted, and told to fail or not.
    pub open spec fn counted(
        self,
        task_id: TaskId,
        after: FlakyWorker,
        r: Option<(FailureClass, String)>,
    ) -> bool {
        &&& after.fail_first == self.fail_first
        &&& after.class == self.class
        &&& after.seen@ == self.seen@.insert(
            task_id,
            (attempts_of(self.seen@, task_id) + 1) as u64,
        )
        &&& match r {
            Some((class, message)) => attempts_of(self.seen@, task_id) < self.fail_first && class
                == self.class && message@ == "simulated flake"@,
            None => attempts_of(self.seen@, task_id) >= self.fail_first,
        }
    }

    /// Counts an attempt, and says whether it fails (with a message) or goes to
    /// the real worker.
    pub fn start(&mut self, task_id: TaskId) -> (r: Option<(FailureClass, String)>)
        requires
            attempts_of(old(self).seen@, task_id) < u64::MAX,
        ensures
            old(self).counted(task_id, *final(self), r),
    {
        let attempt: u64 = self.attempts(task_id) + 1;
        self.seen.insert(task_id, attempt);
        if attempt > self.fail_first {
            None
        } else {
            Some((self.class, "simulated flake".to_owned()))
        }
    }
}

// ---------------------------------------------------------------------------
// Laws
// ---------------------------------------------------------------------------
/// A router with routes always selects one: the first that is not left out, or
/// the first of all where every one is left out. It remembers each query and keeps
/// its routes.
pub proof fn law_the_first_free_route_is_selected(
    router: FixedRouter,
    query: SelectRouteQuery,
    after: FixedRouter,
    r: Result<RouteSelection, PortError>,
    k: int,
)
    requires
        router.selected(query, after, r),
        0 <= k < router.routes@.len(),
    ensures
        r is Ok,
        after.routes@ == router.routes@ && after.outcomes@ == router.outcomes@,
        after.selections@ == router.selections@.push(query),
        (forall|e: int|
            0 <= e < query.exclude@.len() ==> (#[trigger] query.exclude@[e])@
                != router.routes@[k].model@) && (forall|j: int|
            0 <= j < k ==> names(query.exclude@, (#[trigger] router.routes@[j]).model@)) ==> r->Ok_0.route
            == router.routes@[k],
        (forall|j: int|
            0 <= j < router.routes@.len() ==> names(
                query.exclude@,
                (#[trigger] router.routes@[j]).model@,
            )) ==> r->Ok_0.route == router.routes@[0],
{
    let i = choose|i: int| #[trigger]
        is_choice(router.routes@, query.exclude@, i) && r->Ok_0.is_fixed(router.routes@[i]);
    if !names(query.exclude@, router.routes@[k].model@) {
        assert(!names(query.exclude@, router.routes@[i].model@));
        if k < i {
            assert(names(query.exclude@, router.routes@[k].model@));
        }
        if i < k {
            assert(!names(query.exclude@, router.routes@[i].model@));
        }
    }
}

/// A name is among the aliases when it is one of them.
pub proof fn law_an_alias_is_found(aliases: Seq<String>, alias: Seq<char>, i: int)
    ensures
        0 <= i < aliases.len() && aliases[i]@ == alias ==> names(aliases, alias),
        aliases.len() == 0 ==> !names(aliases, alias),
{
}

/// A router without routes fails for good.
pub proof fn law_without_routes_nothing_is_selected(
    router: FixedRouter,
    query: SelectRouteQuery,
    after: FixedRouter,
    r: Result<RouteSelection, PortError>,
)
    requires
        router.selected(query, after, r),
        router.routes@.len() == 0,
    ensures
        r matches Err(error) && error.class == FailureClass::Permanent,
{
}

/// A flaky worker fails exactly the first attempts of every task, with its class,
/// and counts each task on its own.
pub proof fn law_the_first_attempts_fail(
    worker: FlakyWorker,
    task_id: TaskId,
    other: TaskId,
    after: FlakyWorker,
    r: Option<(FailureClass, String)>,
)
    requires
        worker.counted(task_id, after, r),
        attempts_of(worker.seen@, task_id) < u64::MAX,
    ensures
        attempts_of(after.seen@, task_id) == attempts_of(worker.seen@, task_id) + 1,
        other != task_id ==> attempts_of(after.seen@, other) == attempts_of(worker.seen@, other),
        r is Some <==> attempts_of(after.seen@, task_id) <= worker.fail_first,
        r matches Some((class, _)) ==> class == worker.class,
        after.fail_first == worker.fail_first && after.class == worker.class,
{
}

/// A script answers with its next entry: an answer with its usage, or a failure of
/// its class; an empty script fails for good.
pub proof fn law_scripts_are_followed<T>(
    left: Seq<Scripted<T>>,
    role: Seq<char>,
    r: Result<(&T, Usage), PortError>,
)
    requires
        scripted_reply(left, role, r),
    ensures
        left.len() == 0 ==> (r matches Err(error) && error.class == FailureClass::Permanent),
        left.len() > 0 ==> (left[0] matches Scripted::Answer(value, usage) ==> (r matches Ok((v, u))
            && *v == value && u == usage)),
        left.len() > 0 ==> (left[0] matches Scripted::Failure(message, class) ==> (r matches Err(
            error,
        ) && error.message == message && error.class == class)),
{
}

/// Only planning calls are counted as such.
pub proof fn law_planning_calls_are_counted(calls: Seq<CallName>, call: CallName)
    ensures
        plan_count(Seq::empty()) == 0,
        call == CallName::Plan ==> plan_count(calls.push(call)) == plan_count(calls) + 1,
        call != CallName::Plan ==> plan_count(calls.push(call)) == plan_count(calls),
{
    reveal(Seq::filter);
    assert(calls.push(call).drop_last() =~= calls);
}

/// A name is put behind its directory with one slash between.
pub proof fn law_paths_have_one_slash_between(base: Seq<char>, name: Seq<char>)
    requires
        base.len() > 0,
        base.last() != '/',
    ensures
        joined_path(base, name) == base + "/"@ + name,
        joined_path(base.push('/'), name) == base.push('/') + name,
{
}

} // verus!
