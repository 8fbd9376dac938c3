//! The saga's view of a run: the run, its tasks and its questions, as the events
//! seen so far left them.
use std::collections::BTreeMap;

use vstd::prelude::*;

use crate::domain::{
    Answer, Budget, Goal, Instant, QuestionId, QuestionPolicy, QuestionStatus, RunId, RunMode,
    RunStatus, Task, TaskId, TaskStatus, Usage,
};
use crate::maps::{ascending, keys_of};
use crate::ports::AnsweredQuestion;
use crate::roles::context::{Plan, Understanding};
use crate::scheduler::contains_id;
use crate::text::{all_space, copy_strings, is_blank, join, join_of, views};

verus! {

broadcast use vstd::std_specs::btree::group_btree_axioms;

/// What the saga reads of a run.
#[derive(Debug, PartialEq, Eq)]
pub struct Run {
    /// Nil before the run was started.
    pub id: RunId,
    pub exists: bool,
    pub status: RunStatus,
    pub goal: Option<Goal>,
    pub mode: Option<RunMode>,
    pub budget: Budget,
    pub usage: Usage,
    pub understanding: Option<Understanding>,
    pub plan: Option<Plan>,
    pub plan_revisions: u16,
    pub task_ids: Vec<TaskId>,
    /// It is on record that the budget is spent.
    pub budget_exhausted: bool,
    /// The usage is over the budget, on record or not.
    pub over_budget: bool,
}

impl Run {
    /// A run that was never started.
    pub fn unknown() -> (r: Run)
        ensures
            r.id == 0,
            !r.exists,
            r.status == RunStatus::Received,
            r.goal is None,
            r.mode is None,
            r.budget == (Budget {
                max_usd: None,
                max_tokens: None,
                max_wall: None,
                max_attempts: 0,
                max_parallel: 0,
            }),
            r.usage == Usage::zero_spec(),
            r.understanding is None,
            r.plan is None,
            r.plan_revisions == 0,
            r.task_ids@.len() == 0,
            !r.budget_exhausted,
            !r.over_budget,
    {
        Run {
            id: 0,
            exists: false,
            status: RunStatus::Received,
            goal: None,
            mode: None,
            budget: Budget {
                max_usd: None,
                max_tokens: None,
                max_wall: None,
                max_attempts: 0,
                max_parallel: 0,
            },
            usage: Usage::zero(),
            understanding: None,
            plan: None,
            plan_revisions: 0,
            task_ids: Vec::new(),
            budget_exhausted: false,
            over_budget: false,
        }
    }

    /// The amounts in the run are well formed.
    pub open spec fn wf(self) -> bool {
        self.budget.wf() && self.usage.wf()
    }
}

/// What the saga reads of a question.
#[derive(Debug, PartialEq, Eq)]
pub struct Question {
    pub status: QuestionStatus,
    /// `None` for a clarification of the run.
    pub task_id: Option<TaskId>,
    pub text: String,
    pub answer: Option<Answer>,
    pub policy: Option<QuestionPolicy>,
}

/// What happened to a run.
#[derive(Debug, PartialEq, Eq)]
pub enum RunChange {
    Started,
    ExecutionStarted { task_ids: Vec<TaskId> },
    PlanRejected,
    BudgetExhausted,
    Cancelled,
    Completed,
    Failed,
    Other,
}

/// What happened to a task.
#[derive(Debug, Clone, Copy, PartialEq, Eq, Structural)]
pub enum TaskChange {
    Created,
    Retried,
    AttemptFailed,
    Other,
}

/// What happened to a question.
#[derive(Debug, Clone, Copy, PartialEq, Eq, Structural)]
pub enum QuestionChange {
    Asked,
    Other,
}

/// The change that an event makes, with the state that it leads to.
#[derive(Debug, PartialEq, Eq)]
#[allow(inconsistent_fields)]
pub enum SagaEvent {
    Run { change: RunChange, run: Run },
    Task { change: TaskChange, task: Task },
    Question { change: QuestionChange, question: Question },
    /// An event that cannot be read, or of something the saga does not follow.
    Untracked,
}

/// An event and where it belongs.
#[derive(Debug, PartialEq, Eq)]
pub struct SagaEnvelope {
    pub aggregate_id: u128,
    pub aggregate_version: u64,
    pub occurred_at: Instant,
    pub event: SagaEvent,
}

// ---------------------------------------------------------------------------
// Model
// ---------------------------------------------------------------------------
/// A run with its tasks and questions.
pub ghost struct SagaModel {
    pub run: Run,
    pub tasks: Map<TaskId, Task>,
    pub questions: Map<QuestionId, Question>,
    pub asked_at: Map<QuestionId, Instant>,
    pub started_at: Option<Instant>,
    /// Tasks in plan order, then those that came later.
    pub task_order: Seq<TaskId>,
    /// Questions in the order in which they became known.
    pub question_order: Seq<QuestionId>,
    pub run_versions: Map<u128, u64>,
    pub task_versions: Map<u128, u64>,
    pub question_versions: Map<u128, u64>,
}

/// `id` put behind `order`, unless it is there.
pub open spec fn with_id(order: Seq<u128>, id: u128) -> Seq<u128> {
    if order.contains(id) {
        order
    } else {
        order.push(id)
    }
}

/// Each of `ids` put behind `order`, unless it is there.
pub open spec fn with_ids(order: Seq<u128>, ids: Seq<u128>) -> Seq<u128>
    decreases ids.len(),
{
    if ids.len() == 0 {
        order
    } else {
        with_id(with_ids(order, ids.drop_last()), ids.last())
    }
}

/// The version is not newer than the one seen.
pub open spec fn seen(versions: Map<u128, u64>, id: u128, version: u64) -> bool {
    versions.contains_key(id) && versions[id] >= version
}

impl SagaModel {
    /// The state after an event; `None` where the event is a duplicate or is not
    /// followed.
    pub open spec fn after(self, e: SagaEnvelope) -> Option<SagaModel> {
        let id = e.aggregate_id;
        let version = e.aggregate_version;
        match e.event {
            SagaEvent::Run { change, run } => if seen(self.run_versions, id, version) {
                None
            } else {
                Some(
                    SagaModel {
                        run,
                        started_at: if change is Started {
                            Some(e.occurred_at)
                        } else {
                            self.started_at
                        },
                        task_order: match change {
                            RunChange::ExecutionStarted { task_ids } => with_ids(
                                self.task_order,
                                task_ids@,
                            ),
                            _ => self.task_order,
                        },
                        run_versions: self.run_versions.insert(id, version),
                        ..self
                    },
                )
            },
            SagaEvent::Task { change, task } => if seen(self.task_versions, id, version) {
                None
            } else {
                Some(
                    SagaModel {
                        tasks: self.tasks.insert(id, task),
                        task_order: if change == TaskChange::Created {
                            with_id(self.task_order, id)
                        } else {
                            self.task_order
                        },
                        task_versions: self.task_versions.insert(id, version),
                        ..self
                    },
                )
            },
            SagaEvent::Question { change, question } => if seen(
                self.question_versions,
                id,
                version,
            ) {
                None
            } else {
                Some(
                    SagaModel {
                        questions: self.questions.insert(id, question),
                        asked_at: if change == QuestionChange::Asked {
                            self.asked_at.insert(id, e.occurred_at)
                        } else {
                            self.asked_at
                        },
                        question_order: with_id(self.question_order, id),
                        question_versions: self.question_versions.insert(id, version),
                        ..self
                    },
                )
            },
            SagaEvent::Untracked => None,
        }
    }

    /// The state after the events that are followed and new, in order.
    pub open spec fn replayed(self, log: Seq<SagaEnvelope>) -> SagaModel
        decreases log.len(),
    {
        if log.len() == 0 {
            self
        } else {
            let before = self.replayed(log.drop_last());
            match before.after(log.last()) {
                Some(next) => next,
                None => before,
            }
        }
    }

    /// Nothing happened yet.
    pub open spec fn is_new(self) -> bool {
        &&& self.wf()
        &&& !self.run.exists
        &&& self.run.id == 0
        &&& self.run.status == RunStatus::Received
        &&& self.run.goal is None
        &&& self.run.mode is None
        &&& self.run.budget == (Budget {
            max_usd: None,
            max_tokens: None,
            max_wall: None,
            max_attempts: 0,
            max_parallel: 0,
        })
        &&& self.run.usage == Usage::zero_spec()
        &&& self.run.plan is None
        &&& self.run.understanding is None
        &&& self.run.plan_revisions == 0
        &&& self.run.task_ids@.len() == 0
        &&& !self.run.budget_exhausted
        &&& !self.run.over_budget
        &&& self.tasks == Map::<TaskId, Task>::empty()
        &&& self.questions == Map::<QuestionId, Question>::empty()
        &&& self.asked_at == Map::<QuestionId, Instant>::empty()
        &&& self.started_at is None
        &&& self.task_order == Seq::<TaskId>::empty()
        &&& self.question_order == Seq::<QuestionId>::empty()
        &&& self.run_versions == Map::<u128, u64>::empty()
        &&& self.task_versions == Map::<u128, u64>::empty()
        &&& self.question_versions == Map::<u128, u64>::empty()
    }

    /// A question that blocks planning.
    pub open spec fn blocks_planning(self, id: QuestionId) -> bool {
        self.questions.contains_key(id) && self.questions[id].status == QuestionStatus::Open
            && self.questions[id].task_id is None
    }

    /// The answers to clarifications, in the order the questions were asked.
    pub open spec fn answers(self) -> Seq<AnswerView> {
        answers_of(ask_order(self.question_order, self.asked_at), self.questions)
    }

    /// The tasks that succeeded, in order.
    pub open spec fn succeeded(self) -> Seq<Task> {
        succeeded_of(self.task_order, self.tasks)
    }

    /// Nothing is listed twice, and every question has its place.
    pub open spec fn wf(self) -> bool {
        &&& self.run.wf()
        &&& self.task_order.no_duplicates()
        &&& self.question_order.no_duplicates()
        &&& forall|id: QuestionId|
            self.question_order.contains(id) <==> #[trigger] self.questions.contains_key(id)
    }
}

/// When the question was asked; one without a recorded time counts as the last.
pub open spec fn ask_time(asked_at: Map<QuestionId, Instant>, id: QuestionId) -> int {
    if asked_at.contains_key(id) {
        asked_at[id] as int
    } else {
        i128::MAX + 1
    }
}

/// `id` put into `sorted`, after every question that was not asked later.
pub open spec fn insert_asked(
    sorted: Seq<QuestionId>,
    asked_at: Map<QuestionId, Instant>,
    id: QuestionId,
) -> Seq<QuestionId>
    decreases sorted.len(),
{
    if sorted.len() == 0 || ask_time(asked_at, sorted.last()) <= ask_time(asked_at, id) {
        sorted.push(id)
    } else {
        insert_asked(sorted.drop_last(), asked_at, id).push(sorted.last())
    }
}

/// The questions in the order in which they were asked; those asked at the same
/// time keep their order.
pub open spec fn ask_order(order: Seq<QuestionId>, asked_at: Map<QuestionId, Instant>) -> Seq<
    QuestionId,
>
    decreases order.len(),
{
    if order.len() == 0 {
        Seq::empty()
    } else {
        insert_asked(ask_order(order.drop_last(), asked_at), asked_at, order.last())
    }
}

/// An answered question as text.
pub ghost struct AnswerView {
    pub question: Seq<char>,
    pub answer: Seq<char>,
    pub answered_by: Seq<char>,
}

/// The answer as text: the selected labels and the free text, where there is any.
pub open spec fn rendered_answer(answer: Answer) -> Seq<char> {
    let parts = views(answer.selected@);
    match answer.free_text {
        Some(text) => if all_space(text@) {
            join_of(parts, "; "@)
        } else {
            join_of(parts.push(text@), "; "@)
        },
        None => join_of(parts, "; "@),
    }
}

/// The answer of a clarification, where it has one.
pub open spec fn answer_of(q: Question) -> Option<AnswerView> {
    match q.answer {
        Some(answer) => if q.task_id is None && q.status == QuestionStatus::Answered {
            Some(
                AnswerView {
                    question: q.text@,
                    answer: rendered_answer(answer),
                    answered_by: answer.answered_by@,
                },
            )
        } else {
            None
        },
        None => None,
    }
}

/// The answers of the clarifications in `order`.
pub open spec fn answers_of(order: Seq<QuestionId>, questions: Map<QuestionId, Question>) -> Seq<
    AnswerView,
>
    decreases order.len(),
{
    if order.len() == 0 {
        Seq::empty()
    } else {
        let before = answers_of(order.drop_last(), questions);
        let id = order.last();
        if questions.contains_key(id) {
            match answer_of(questions[id]) {
                Some(a) => before.push(a),
                None => before,
            }
        } else {
            before
        }
    }
}

/// The tasks in `order` that succeeded.
pub open spec fn succeeded_of(order: Seq<TaskId>, tasks: Map<TaskId, Task>) -> Seq<Task>
    decreases order.len(),
{
    if order.len() == 0 {
        Seq::empty()
    } else {
        let before = succeeded_of(order.drop_last(), tasks);
        let id = order.last();
        if tasks.contains_key(id) && tasks[id].status == TaskStatus::Succeeded {
            before.push(tasks[id])
        } else {
            before
        }
    }
}

impl View for AnsweredQuestion {
    type V = AnswerView;

    open spec fn view(&self) -> AnswerView {
        AnswerView {
            question: self.question@,
            answer: self.answer@,
            answered_by: self.answered_by@,
        }
    }
}

/// The answers as text.
pub open spec fn answer_views(s: Seq<AnsweredQuestion>) -> Seq<AnswerView> {
    s.map_values(|a: AnsweredQuestion| a@)
}

// ---------------------------------------------------------------------------
// View
// ---------------------------------------------------------------------------
/// A run with its tasks and questions.
#[derive(Debug)]
pub struct SagaView {
    pub run: Run,
    pub tasks: BTreeMap<TaskId, Task>,
    pub questions: BTreeMap<QuestionId, Question>,
    pub asked_at: BTreeMap<QuestionId, Instant>,
    pub started_at: Option<Instant>,
    pub task_order: Vec<TaskId>,
    pub question_order: Vec<QuestionId>,
    pub run_versions: BTreeMap<u128, u64>,
    pub task_versions: BTreeMap<u128, u64>,
    pub question_versions: BTreeMap<u128, u64>,
}

impl View for SagaView {
    type V = SagaModel;

    open spec fn view(&self) -> SagaModel {
        SagaModel {
            run: self.run,
            tasks: self.tasks@,
            questions: self.questions@,
            asked_at: self.asked_at@,
            started_at: self.started_at,
            task_order: self.task_order@,
            question_order: self.question_order@,
            run_versions: self.run_versions@,
            task_versions: self.task_versions@,
            question_versions: self.question_versions@,
        }
    }
}

fn push_missing(order: &mut Vec<u128>, id: u128)
    ensures
        final(order)@ == with_id(old(order)@, id),
{
    if !contains_id(order, id) {
        order.push(id);
    }
}

fn push_all_missing(order: &mut Vec<u128>, ids: &Vec<u128>)
    ensures
        final(order)@ == with_ids(old(order)@, ids@),
{
    let ghost start = order@;
    let mut i: usize = 0;
    while i < ids.len()
        invariant
            i <= ids@.len(),
            order@ == with_ids(start, ids@.subrange(0, i as int)),
        decreases ids@.len() - i,
    {
        proof {
            let next = ids@.subrange(0, i + 1);
            assert(next.drop_last() =~= ids@.subrange(0, i as int));
            assert(next.last() == ids@[i as int]);
        }
        push_missing(order, ids[i]);
        i = i + 1;
    }
    assert(ids@.subrange(0, ids@.len() as int) =~= ids@);
}

fn is_seen(versions: &BTreeMap<u128, u64>, id: u128, version: u64) -> (b: bool)
    ensures
        b == seen(versions@, id, version),
{
    match versions.get(&id) {
        Some(v) => *v >= version,
        None => false,
    }
}

impl SagaView {
    /// A view of nothing.
    pub fn new() -> (r: SagaView)
        ensures
            r@.is_new(),
    {
        SagaView {
            run: Run::unknown(),
            tasks: BTreeMap::new(),
            questions: BTreeMap::new(),
            asked_at: BTreeMap::new(),
            started_at: None,
            task_order: Vec::new(),
            question_order: Vec::new(),
            run_versions: BTreeMap::new(),
            task_versions: BTreeMap::new(),
            question_versions: BTreeMap::new(),
        }
    }

    /// The run's id, nil before it was started.
    pub fn run_id(&self) -> (r: RunId)
        ensures
            r == self@.run.id,
    {
        self.run.id
    }

    /// Takes in one event. `false` where it was a duplicate or is not followed;
    /// nothing changes then.
    pub fn apply(&mut self, envelope: SagaEnvelope) -> (r: bool)
        ensures
            match old(self)@.after(envelope) {
                Some(next) => r && final(self)@ == next,
                None => !r && final(self)@ == old(self)@,
            },
    {
        let id: u128 = envelope.aggregate_id;
        let version: u64 = envelope.aggregate_version;
        let at: Instant = envelope.occurred_at;
        match envelope.event {
            SagaEvent::Run { change, run } => {
                if is_seen(&self.run_versions, id, version) {
                    return false;
                }
                match change {
                    RunChange::Started => {
                        self.started_at = Some(at);
                    },
                    RunChange::ExecutionStarted { task_ids } => {
                        push_all_missing(&mut self.task_order, &task_ids);
                    },
                    _ => {},
                }
                self.run = run;
                self.run_versions.insert(id, version);
                true
            },
            SagaEvent::Task { change, task } => {
                if is_seen(&self.task_versions, id, version) {
                    return false;
                }
                self.tasks.insert(id, task);
                if change == TaskChange::Created {
                    push_missing(&mut self.task_order, id);
                }
                self.task_versions.insert(id, version);
                true
            },
            SagaEvent::Question { change, question } => {
                if is_seen(&self.question_versions, id, version) {
                    return false;
                }
                if change == QuestionChange::Asked {
                    self.asked_at.insert(id, at);
                }
                self.questions.insert(id, question);
                push_missing(&mut self.question_order, id);
                self.question_versions.insert(id, version);
                true
            },
            SagaEvent::Untracked => false,
        }
    }

    /// The open questions that block planning, by id.
    pub fn open_clarifications(&self) -> (r: Vec<QuestionId>)
        ensures
            ascending(r@),
            forall|id: QuestionId| r@.contains(id) <==> #[trigger] self@.blocks_planning(id),
    {
        let ids = keys_of(&self.questions);
        let mut out: Vec<QuestionId> = Vec::new();
        let mut i: usize = 0;
        while i < ids.len()
            invariant
                i <= ids@.len(),
                ascending(ids@),
                forall|k: u128| ids@.contains(k) <==> self.questions@.contains_key(k),
                ascending(out@),
                forall|j: int| 0 <= j < out@.len() ==> self@.blocks_planning(#[trigger] out@[j]),
                forall|j: int, k: int|
                    0 <= j < out@.len() && i <= k < ids@.len() ==> (#[trigger] out@[j]) < (
                    #[trigger] ids@[k]),
                forall|k: int|
                    0 <= k < i && self@.blocks_planning(#[trigger] ids@[k]) ==> out@.contains(
                        ids@[k],
                    ),
            decreases ids@.len() - i,
        {
            let id: QuestionId = ids[i];
            assert(ids@.contains(id));
            let ghost before = out@;
            let blocks = match self.questions.get(&id) {
                Some(q) => match q.status {
                    QuestionStatus::Open => q.task_id.is_none(),
                    _ => false,
                },
                None => false,
            };
            if blocks {
                out.push(id);
                assert(out@[before.len() as int] == id);
                assert forall|k: int| 0 <= k < i && self@.blocks_planning(
                    #[trigger] ids@[k],
                ) implies out@.contains(ids@[k]) by {
                    let j = choose|j: int| 0 <= j < before.len() && before[j] == ids@[k];
                    assert(out@[j] == ids@[k]);
                }
            }
            i = i + 1;
        }
        assert forall|id: QuestionId| #[trigger] self@.blocks_planning(id) implies out@.contains(
            id,
        ) by {
            assert(ids@.contains(id));
            let k = choose|k: int| 0 <= k < ids@.len() && ids@[k] == id;
            assert(self@.blocks_planning(ids@[k]));
        }
        out
    }

    fn asked_later(&self, a: QuestionId, b: QuestionId) -> (r: bool)
        ensures
            r == (ask_time(self.asked_at@, a) > ask_time(self.asked_at@, b)),
    {
        match (self.asked_at.get(&a), self.asked_at.get(&b)) {
            (Some(x), Some(y)) => *x > *y,
            (None, Some(_)) => true,
            (_, None) => false,
        }
    }

    /// The questions in the order in which they were asked.
    pub fn questions_asked(&self) -> (r: Vec<QuestionId>)
        ensures
            r@ == ask_order(self@.question_order, self@.asked_at),
    {
        let mut sorted: Vec<QuestionId> = Vec::new();
        let mut i: usize = 0;
        while i < self.question_order.len()
            invariant
                i <= self.question_order@.len(),
                sorted@ == ask_order(self.question_order@.subrange(0, i as int), self.asked_at@),
            decreases self.question_order@.len() - i,
        {
            let id: QuestionId = self.question_order[i];
            proof {
                let next = self.question_order@.subrange(0, i + 1);
                assert(next.drop_last() =~= self.question_order@.subrange(0, i as int));
                assert(next.last() == id);
            }
            let mut p: usize = sorted.len();
            while p > 0 && self.asked_later(sorted[p - 1], id)
                invariant
                    p <= sorted@.len(),
                    forall|k: int|
                        p <= k < sorted@.len() ==> ask_time(self.asked_at@, #[trigger] sorted@[k])
                            > ask_time(self.asked_at@, id),
                decreases p,
            {
                p = p - 1;
            }
            proof {
                lemma_insert_asked(sorted@, self.asked_at@, id, p as int);
            }
            sorted.insert(p, id);
            i = i + 1;
        }
        assert(self.question_order@.subrange(0, self.question_order@.len() as int)
            =~= self.question_order@);
        sorted
    }

    /// The answers to clarifications, in the order the questions were asked.
    pub fn answers(&self) -> (r: Vec<AnsweredQuestion>)
        ensures
            answer_views(r@) == self@.answers(),
    {
        let order = self.questions_asked();
        let mut out: Vec<AnsweredQuestion> = Vec::new();
        let mut i: usize = 0;
        assert(answer_views(out@) =~= Seq::<AnswerView>::empty());
        while i < order.len()
            invariant
                i <= order@.len(),
                answer_views(out@) == answers_of(
                    order@.subrange(0, i as int),
                    self.questions@,
                ),
            decreases order@.len() - i,
        {
            let id: QuestionId = order[i];
            let ghost before = out@;
            proof {
                let next = order@.subrange(0, i + 1);
                assert(next.drop_last() =~= order@.subrange(0, i as int));
                assert(next.last() == id);
            }
            if let Some(q) = self.questions.get(&id) {
                if let Some(answer) = &q.answer {
                    let answered = match q.status {
                        QuestionStatus::Answered => q.task_id.is_none(),
                        _ => false,
                    };
                    if answered {
                        out.push(
                            AnsweredQuestion {
                                question: q.text.clone(),
                                answer: render_answer(answer),
                                answered_by: answer.answered_by.clone(),
                            },
                        );
                        assert(answer_views(out@) =~= answer_views(before).push(
                            out@[before.len() as int]@,
                        ));
                    }
                }
            }
            i = i + 1;
        }
        assert(order@.subrange(0, order@.len() as int)
            =~= order@);
        out
    }

    /// The tasks that succeeded, in plan order.
    pub fn succeeded(&self) -> (r: Vec<&Task>)
        ensures
            r@.unref() == self@.succeeded(),
    {
        let mut out: Vec<&Task> = Vec::new();
        let mut i: usize = 0;
        assert(out@.unref() =~= Seq::<Task>::empty());
        while i < self.task_order.len()
            invariant
                i <= self.task_order@.len(),
                out@.unref() == succeeded_of(
                    self.task_order@.subrange(0, i as int),
                    self.tasks@,
                ),
            decreases self.task_order@.len() - i,
        {
            let id: TaskId = self.task_order[i];
            let ghost before = out@;
            proof {
                let next = self.task_order@.subrange(0, i + 1);
                assert(next.drop_last() =~= self.task_order@.subrange(0, i as int));
                assert(next.last() == id);
            }
            if let Some(task) = self.tasks.get(&id) {
                let done = match task.status {
                    TaskStatus::Succeeded => true,
                    _ => false,
                };
                if done {
                    out.push(task);
                    assert(out@.unref() =~= before.unref().push(*task));
                }
            }
            i = i + 1;
        }
        assert(self.task_order@.subrange(0, self.task_order@.len() as int) =~= self.task_order@);
        out
    }
}

/// The answer as text: the selected labels and the free text, where there is any.
pub fn render_answer(answer: &Answer) -> (r: String)
    ensures
        r@ == rendered_answer(*answer),
{
    let mut parts = copy_strings(&answer.selected);
    let ghost before = parts@;
    if let Some(text) = &answer.free_text {
        if !is_blank(text.as_str()) {
            parts.push(text.clone());
            assert(views(parts@) =~= views(before).push(text@));
        }
    }
    join(&parts, "; ")
}

/// Whether the run has spent its budget, on record or by the usage seen so far.
pub fn budget_spent(run: &Run) -> (b: bool)
    ensures
        b == (run.budget_exhausted || run.over_budget),
{
    run.budget_exhausted || run.over_budget
}

// ---------------------------------------------------------------------------
// Laws
// ---------------------------------------------------------------------------
/// An event that was taken in is not taken in again, whatever it is.
pub proof fn law_duplicates_change_nothing(view: SagaModel, event: SagaEnvelope)
    requires
        view.after(event) is Some,
    ensures
        view.after(event)->0.after(event) is None,
{
}

/// Nor is an older event of the same run, task or question.
pub proof fn law_older_events_change_nothing(
    view: SagaModel,
    event: SagaEnvelope,
    older: SagaEnvelope,
)
    requires
        view.after(event) is Some,
        older.aggregate_id == event.aggregate_id,
        older.aggregate_version <= event.aggregate_version,
        older.event is Run <==> event.event is Run,
        older.event is Task <==> event.event is Task,
        older.event is Question <==> event.event is Question,
    ensures
        view.after(event)->0.after(older) is None,
{
}

/// The view has the version of the event, or a later one of the same run, task or
/// question.
pub open spec fn knows(view: SagaModel, event: SagaEnvelope) -> bool {
    view.after(event) is None
}

proof fn lemma_known_stays_known(view: SagaModel, log: Seq<SagaEnvelope>, event: SagaEnvelope)
    requires
        knows(view, event),
    ensures
        knows(view.replayed(log), event),
    decreases log.len(),
{
    if log.len() > 0 {
        lemma_known_stays_known(view, log.drop_last(), event);
    }
}

proof fn lemma_replayed_is_known(view: SagaModel, log: Seq<SagaEnvelope>, i: int)
    requires
        0 <= i < log.len(),
    ensures
        knows(view.replayed(log), log[i]),
    decreases log.len(),
{
    if i < log.len() - 1 {
        lemma_replayed_is_known(view, log.drop_last(), i);
    }
}

proof fn lemma_known_log(view: SagaModel, log: Seq<SagaEnvelope>)
    requires
        forall|i: int| 0 <= i < log.len() ==> knows(view, #[trigger] log[i]),
    ensures
        view.replayed(log) == view,
    decreases log.len(),
{
    if log.len() > 0 {
        assert forall|i: int| 0 <= i < log.drop_last().len() implies knows(
            view,
            #[trigger] log.drop_last()[i],
        ) by {
            assert(knows(view, log[i]));
        }
        lemma_known_log(view, log.drop_last());
        assert(knows(view, log[log.len() - 1]));
    }
}

/// A log that was replayed changes nothing when it is replayed again, even where
/// more was taken in between: what the store told is not told again by the bus.
pub proof fn law_a_replayed_log_changes_nothing(
    view: SagaModel,
    log: Seq<SagaEnvelope>,
    more: Seq<SagaEnvelope>,
)
    ensures
        ({
            let now = view.replayed(log).replayed(more);
            now.replayed(log) == now
        }),
{
    let now = view.replayed(log).replayed(more);
    assert forall|i: int| 0 <= i < log.len() implies knows(now, #[trigger] log[i]) by {
        lemma_replayed_is_known(view, log, i);
        lemma_known_stays_known(view.replayed(log), more, log[i]);
    }
    lemma_known_log(now, log);
}

proof fn lemma_with_id(order: Seq<u128>, id: u128)
    ensures
        order.no_duplicates() ==> with_id(order, id).no_duplicates(),
        with_id(order, id).contains(id),
        forall|k: u128| #[trigger]
            with_id(order, id).contains(k) <==> (order.contains(k) || k == id),
        order.is_prefix_of(with_id(order, id)),
{
    let next = with_id(order, id);
    if !order.contains(id) {
        assert(next[order.len() as int] == id);
        assert forall|k: u128| order.contains(k) implies #[trigger] next.contains(k) by {
            let i = choose|i: int| 0 <= i < order.len() && order[i] == k;
            assert(next[i] == k);
        }
    }
}

proof fn lemma_with_ids(order: Seq<u128>, ids: Seq<u128>)
    ensures
        order.no_duplicates() ==> with_ids(order, ids).no_duplicates(),
        order.is_prefix_of(with_ids(order, ids)),
    decreases ids.len(),
{
    if ids.len() > 0 {
        lemma_with_ids(order, ids.drop_last());
        lemma_with_id(with_ids(order, ids.drop_last()), ids.last());
    }
}

/// Taking in events keeps the view well formed: nothing is listed twice, and
/// every question has its place.
pub proof fn law_views_stay_well_formed(view: SagaModel, event: SagaEnvelope)
    requires
        view.wf(),
        view.after(event) is Some,
        event.event matches SagaEvent::Run { run, .. } ==> run.wf(),
    ensures
        view.after(event)->0.wf(),
{
    let next = view.after(event)->0;
    match event.event {
        SagaEvent::Run { change, .. } => {
            if let RunChange::ExecutionStarted { task_ids } = change {
                lemma_with_ids(view.task_order, task_ids@);
            }
        },
        SagaEvent::Task { .. } => {
            lemma_with_id(view.task_order, event.aggregate_id);
        },
        SagaEvent::Question { .. } => {
            lemma_with_id(view.question_order, event.aggregate_id);
            assert forall|id: QuestionId|
                next.question_order.contains(id) <==> #[trigger] next.questions.contains_key(
                    id,
                ) by {
                assert(view.question_order.contains(id) <==> view.questions.contains_key(id));
            }
        },
        SagaEvent::Untracked => {},
    }
}

/// The orders only grow at the end: what was before another task or question
/// stays before it.
pub proof fn law_orders_are_stable(view: SagaModel, event: SagaEnvelope)
    requires
        view.after(event) is Some,
    ensures
        view.task_order.is_prefix_of(view.after(event)->0.task_order),
        view.question_order.is_prefix_of(view.after(event)->0.question_order),
{
    match event.event {
        SagaEvent::Run { change, .. } => {
            if let RunChange::ExecutionStarted { task_ids } = change {
                lemma_with_ids(view.task_order, task_ids@);
            }
        },
        SagaEvent::Task { .. } => {
            lemma_with_id(view.task_order, event.aggregate_id);
        },
        SagaEvent::Question { .. } => {
            lemma_with_id(view.question_order, event.aggregate_id);
        },
        SagaEvent::Untracked => {},
    }
}

proof fn lemma_insert_asked(
    sorted: Seq<QuestionId>,
    asked_at: Map<QuestionId, Instant>,
    id: QuestionId,
    p: int,
)
    requires
        0 <= p <= sorted.len(),
        forall|k: int|
            p <= k < sorted.len() ==> ask_time(asked_at, #[trigger] sorted[k]) > ask_time(
                asked_at,
                id,
            ),
        p > 0 ==> ask_time(asked_at, sorted[p - 1]) <= ask_time(asked_at, id),
    ensures
        insert_asked(sorted, asked_at, id) == sorted.insert(p, id),
    decreases sorted.len(),
{
    if p == sorted.len() {
        assert(sorted.insert(p, id) =~= sorted.push(id));
    } else {
        let before = sorted.drop_last();
        assert(ask_time(asked_at, sorted[sorted.len() - 1]) > ask_time(asked_at, id));
        assert forall|k: int| p <= k < before.len() implies ask_time(
            asked_at,
            #[trigger] before[k],
        ) > ask_time(asked_at, id) by {
            assert(before[k] == sorted[k]);
        }
        lemma_insert_asked(before, asked_at, id, p);
        assert(sorted.insert(p, id) =~= before.insert(p, id).push(sorted.last()));
    }
}

/// The questions are sorted.
pub open spec fn in_ask_order(sorted: Seq<QuestionId>, asked_at: Map<QuestionId, Instant>) -> bool {
    forall|i: int, j: int|
        0 <= i < j < sorted.len() ==> ask_time(asked_at, #[trigger] sorted[i]) <= ask_time(
            asked_at,
            #[trigger] sorted[j],
        )
}

proof fn lemma_insert_keeps_order(
    sorted: Seq<QuestionId>,
    asked_at: Map<QuestionId, Instant>,
    id: QuestionId,
)
    requires
        in_ask_order(sorted, asked_at),
    ensures
        in_ask_order(insert_asked(sorted, asked_at, id), asked_at),
        insert_asked(sorted, asked_at, id).to_multiset() == sorted.to_multiset().insert(id),
        insert_asked(sorted, asked_at, id).len() == sorted.len() + 1,
        insert_asked(sorted, asked_at, id).last() == id || sorted.len() > 0 && insert_asked(
            sorted,
            asked_at,
            id,
        ).last() == sorted.last(),
        ask_time(asked_at, insert_asked(sorted, asked_at, id).last()) >= ask_time(asked_at, id),
    decreases sorted.len(),
{
    broadcast use vstd::seq_lib::group_to_multiset_ensures;

    let r = insert_asked(sorted, asked_at, id);
    if sorted.len() == 0 || ask_time(asked_at, sorted.last()) <= ask_time(asked_at, id) {
        assert forall|i: int, j: int| 0 <= i < j < r.len() implies ask_time(
            asked_at,
            #[trigger] r[i],
        ) <= ask_time(asked_at, #[trigger] r[j]) by {
            if j == sorted.len() && i < sorted.len() - 1 {
                assert(ask_time(asked_at, sorted[i]) <= ask_time(
                    asked_at,
                    sorted[sorted.len() - 1],
                ));
            }
        }
    } else {
        let before = sorted.drop_last();
        lemma_insert_keeps_order(before, asked_at, id);
        let inner = insert_asked(before, asked_at, id);
        assert(sorted =~= before.push(sorted.last()));
        assert forall|i: int, j: int| 0 <= i < j < r.len() implies ask_time(
            asked_at,
            #[trigger] r[i],
        ) <= ask_time(asked_at, #[trigger] r[j]) by {
            if j == inner.len() {
                assert(ask_time(asked_at, inner.last()) <= ask_time(asked_at, sorted.last()));
                if i < inner.len() - 1 {
                    assert(ask_time(asked_at, inner[i]) <= ask_time(
                        asked_at,
                        inner[inner.len() - 1],
                    ));
                }
            }
        }
    }
}

/// The order of asking is sorted by the times of asking, and holds the known
/// questions and no other.
pub proof fn law_answers_come_in_ask_order(order: Seq<QuestionId>, asked_at: Map<QuestionId, Instant>)
    ensures
        in_ask_order(ask_order(order, asked_at), asked_at),
        ask_order(order, asked_at).to_multiset() == order.to_multiset(),
    decreases order.len(),
{
    broadcast use vstd::seq_lib::group_to_multiset_ensures;

    if order.len() > 0 {
        let before = order.drop_last();
        law_answers_come_in_ask_order(before, asked_at);
        lemma_insert_keeps_order(ask_order(before, asked_at), asked_at, order.last());
        assert(order =~= before.push(order.last()));
    } else {
        assert(ask_order(order, asked_at) =~= order);
    }
}

/// An event of a run, a task or a question is taken in exactly when it is newer
/// than the last one of the same; what the saga does not follow never is.
pub proof fn law_new_events_are_taken_in(view: SagaModel, e: SagaEnvelope)
    ensures
        e.event is Untracked ==> view.after(e) is None,
        e.event is Run ==> (view.after(e) is Some <==> !view.run_versions.contains_key(
            e.aggregate_id,
        ) || view.run_versions[e.aggregate_id] < e.aggregate_version),
        e.event is Task ==> (view.after(e) is Some <==> !view.task_versions.contains_key(
            e.aggregate_id,
        ) || view.task_versions[e.aggregate_id] < e.aggregate_version),
        e.event is Question ==> (view.after(e) is Some <==> !view.question_versions.contains_key(
            e.aggregate_id,
        ) || view.question_versions[e.aggregate_id] < e.aggregate_version),
{
}

/// What an event changes: the run, its task or its question is then as the event
/// says, and the others are as they were.
pub proof fn law_an_event_changes_what_it_belongs_to(view: SagaModel, e: SagaEnvelope, other: u128)
    requires
        view.after(e) is Some,
    ensures
        ({
            let next = view.after(e)->0;
            let id = e.aggregate_id;
            &&& e.event matches SagaEvent::Run { change, run } ==> {
                &&& next.run == run
                &&& next.tasks == view.tasks && next.questions == view.questions && next.asked_at
                    == view.asked_at && next.question_order == view.question_order
                &&& change is Started ==> next.started_at == Some(e.occurred_at)
                &&& !(change is Started) ==> next.started_at == view.started_at
                &&& !(change is ExecutionStarted) ==> next.task_order == view.task_order
                &&& next.run_versions.contains_key(id) && next.run_versions[id]
                    == e.aggregate_version
            }
            &&& e.event matches SagaEvent::Task { change, task } ==> {
                &&& next.tasks.contains_key(id) && next.tasks[id] == task
                &&& other != id ==> next.tasks.contains_key(other) == view.tasks.contains_key(other)
                &&& other != id && view.tasks.contains_key(other) ==> next.tasks[other]
                    == view.tasks[other]
                &&& next.run == view.run && next.questions == view.questions && next.started_at
                    == view.started_at && next.question_order == view.question_order
                &&& change == TaskChange::Created ==> next.task_order.contains(id)
                &&& change != TaskChange::Created ==> next.task_order == view.task_order
                &&& next.task_versions.contains_key(id) && next.task_versions[id]
                    == e.aggregate_version
            }
            &&& e.event matches SagaEvent::Question { change, question } ==> {
                &&& next.questions.contains_key(id) && next.questions[id] == question
                &&& other != id ==> next.questions.contains_key(other)
                    == view.questions.contains_key(other)
                &&& other != id && view.questions.contains_key(other) ==> next.questions[other]
                    == view.questions[other]
                &&& next.run == view.run && next.tasks == view.tasks && next.task_order
                    == view.task_order && next.started_at == view.started_at
                &&& change == QuestionChange::Asked ==> next.asked_at.contains_key(id)
                    && next.asked_at[id] == e.occurred_at
                &&& change != QuestionChange::Asked ==> next.asked_at == view.asked_at
                &&& next.question_order.contains(id)
                &&& next.question_versions.contains_key(id) && next.question_versions[id]
                    == e.aggregate_version
            }
        }),
{
    let next = view.after(e)->0;
    let id = e.aggregate_id;
    if e.event is Task && !view.task_order.contains(id) {
        assert(view.task_order.push(id)[view.task_order.len() as int] == id);
    }
    if e.event is Question && !view.question_order.contains(id) {
        assert(view.question_order.push(id)[view.question_order.len() as int] == id);
    }
}

/// The tasks of a started execution get their places in the order of the plan:
/// those that had one keep it, and each of the others comes behind all before it.
pub proof fn law_tasks_are_ordered_by_the_plan(order: Seq<TaskId>, ids: Seq<TaskId>, id: TaskId)
    ensures
        with_ids(order, Seq::empty()) == order,
        with_ids(order, ids).contains(id) ==> with_ids(order, ids.push(id)) == with_ids(order, ids),
        !with_ids(order, ids).contains(id) ==> with_ids(order, ids.push(id)) == with_ids(
            order,
            ids,
        ).push(id),
{
    assert(ids.push(id).drop_last() =~= ids);
}

/// Planning waits for the open questions of the run itself, and for no question
/// of a task and none that is answered or expired.
pub proof fn law_open_clarifications_block_planning(view: SagaModel, id: QuestionId)
    requires
        view.questions.contains_key(id),
    ensures
        view.blocks_planning(id) <==> view.questions[id].status == QuestionStatus::Open
            && view.questions[id].task_id is None,
{
}

/// The tasks whose results count are those that succeeded, in order, and no other.
pub proof fn law_only_successes_count(
    order: Seq<TaskId>,
    tasks: Map<TaskId, Task>,
    id: TaskId,
)
    ensures
        succeeded_of(Seq::empty(), tasks).len() == 0,
        tasks.contains_key(id) && tasks[id].status == TaskStatus::Succeeded ==> succeeded_of(
            order.push(id),
            tasks,
        ) == succeeded_of(order, tasks).push(tasks[id]),
        !tasks.contains_key(id) || tasks[id].status != TaskStatus::Succeeded ==> succeeded_of(
            order.push(id),
            tasks,
        ) == succeeded_of(order, tasks),
{
    assert(order.push(id).drop_last() =~= order);
}

/// The planner is told the answers to the run's own questions: each answered one,
/// with who answered it, and neither open questions nor those of tasks.
pub proof fn law_answers_to_the_run_are_told(
    order: Seq<QuestionId>,
    questions: Map<QuestionId, Question>,
    id: QuestionId,
)
    ensures
        answers_of(Seq::empty(), questions).len() == 0,
        questions.contains_key(id) && questions[id].status == QuestionStatus::Answered
            && questions[id].task_id is None && questions[id].answer is Some ==> answers_of(
            order.push(id),
            questions,
        ) == answers_of(order, questions).push(
            AnswerView {
                question: questions[id].text@,
                answer: rendered_answer(questions[id].answer->0),
                answered_by: questions[id].answer->0.answered_by@,
            },
        ),
        !questions.contains_key(id) || questions[id].status != QuestionStatus::Answered
            || questions[id].task_id is Some || questions[id].answer is None ==> answers_of(
            order.push(id),
            questions,
        ) == answers_of(order, questions),
{
    assert(order.push(id).drop_last() =~= order);
}

/// An answer reads as its selected labels, and its free text behind them where it
/// says anything.
pub proof fn law_answers_read_as_given(answer: Answer)
    ensures
        answer.free_text is None ==> rendered_answer(answer) == join_of(
            views(answer.selected@),
            "; "@,
        ),
        answer.free_text matches Some(text) ==> (all_space(text@) ==> rendered_answer(answer)
            == join_of(views(answer.selected@), "; "@)) && (!all_space(text@) ==> rendered_answer(
            answer,
        ) == join_of(views(answer.selected@).push(text@), "; "@)),
{
}

/// A new view knows of no run, no task and no question, and takes in every first
/// event.
pub proof fn law_a_new_view_is_empty(view: SagaModel, id: u128, e: SagaEnvelope)
    requires
        view.is_new(),
    ensures
        !view.run.exists && view.run.status == RunStatus::Received,
        view.run.goal is None && view.run.mode is None && view.run.plan is None
            && view.run.understanding is None,
        view.run.plan_revisions == 0 && !view.run.budget_exhausted && !view.run.over_budget,
        view.run.usage.input_tokens == 0 && view.run.usage.output_tokens == 0
            && view.run.usage.cost_usd is None,
        !view.tasks.contains_key(id) && !view.questions.contains_key(id)
            && !view.asked_at.contains_key(id),
        view.started_at is None,
        view.task_order.len() == 0 && view.question_order.len() == 0,
        !(e.event is Untracked) ==> view.after(e) is Some,
{
}

} // verus!
