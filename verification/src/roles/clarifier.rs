//! The clarifier, and the rules that select which proposed questions are asked.
use vstd::prelude::*;

use super::context::{
    set_lines, var_views, PlanRules, ProposedQuestion, RoleContext, RoleLimits, Understanding,
    ValueView, Var, ASSUMPTION_PREFIX,
};
use super::{checked, Role, RoleError};
use crate::domain::{QuestionOption, QuestionPolicy, RunMode, Span, TaskKind, WorkspacePolicy};
use crate::text::{cat, cat3, join, join_of, prefixed, push_line, push_prefixed, views};

verus! {

/// The clarifier's output.
#[derive(Debug, PartialEq, Eq)]
pub struct DraftedQuestions {
    /// The rewritten questions, in the order they must be shown.
    pub questions: Vec<ProposedQuestion>,
}

impl DraftedQuestions {
    /// The first refusal among those of the questions, in order; `refusals`
    /// holds one entry per question.
    pub fn validate(&self, refusals: &Vec<Option<String>>) -> (r: Result<(), String>)
        requires
            refusals@.len() == self.questions@.len(),
        ensures
            match r {
                Ok(_) => forall|i: int| 0 <= i < refusals@.len() ==> (#[trigger] refusals@[i]) is None,
                Err(message) => exists|i: int|
                    0 <= i < refusals@.len() && #[trigger] refusals@[i] == Some(message) && forall|k: int|
                        0 <= k < i ==> (#[trigger] refusals@[k]) is None,
            },
    {
        let mut i: usize = 0;
        while i < refusals.len()
            invariant
                i <= refusals@.len(),
                forall|k: int| 0 <= k < i ==> (#[trigger] refusals@[k]) is None,
            decreases refusals@.len() - i,
        {
            if let Some(message) = &refusals[i] {
                assert(refusals@[i as int] == Some(*message));
                return Err(message.clone());
            }
            i = i + 1;
        }
        Ok(())
    }
}

/// Question drafting.
#[derive(Debug, Clone, Copy, PartialEq, Eq, Structural)]
pub struct Clarifier;

impl Role for Clarifier {
    open spec fn key(&self) -> Seq<char> {
        "clarifier"@
    }

    open spec fn kind(&self) -> TaskKind {
        TaskKind::Clarify
    }

    open spec fn policy(&self) -> WorkspacePolicy {
        WorkspacePolicy::ReadOnly
    }

    fn name(&self) -> (r: &'static str) {
        "clarifier"
    }

    fn task_kind(&self) -> (r: TaskKind) {
        TaskKind::Clarify
    }

    fn workspace_policy(&self) -> (r: WorkspacePolicy) {
        WorkspacePolicy::ReadOnly
    }
}

impl Clarifier {
    /// What is made of questions that were extracted and read, given the refusals
    /// of their validation.
    pub fn checked(
        &self,
        extracted: Result<DraftedQuestions, RoleError>,
        refusal: Option<String>,
    ) -> (r: Result<DraftedQuestions, RoleError>)
        ensures
            match (extracted, refusal) {
                (Err(e), _) => r == Err::<DraftedQuestions, RoleError>(e),
                (Ok(_), Some(message)) => r matches Err(RoleError::Invalid {
                    role,
                    subject,
                    message: m,
                }) && role@ == "clarifier"@ && subject@ == "questions"@ && m == message,
                (Ok(v), None) => r == Ok::<DraftedQuestions, RoleError>(v),
            },
    {
        checked(self.name(), "questions", extracted, refusal)
    }

    /// The variables of the clarifier's prompts: those of every prompt, and where
    /// there is an understanding the questions to ask and the assumptions made.
    /// `confidences` holds the confidence of every proposed question, with two
    /// decimals. A run without a mode counts as interactive.
    pub fn vars(&self, ctx: &RoleContext, rules: &PlanRules, confidences: &Vec<String>) -> (r: Vec<
        Var,
    >)
        requires
            ctx.wf(),
            ctx.understanding matches Some(u) ==> confidences@.len()
                == u.proposed_questions@.len(),
        ensures
            match ctx.understanding {
                None => var_views(r@) == ctx.plain_vars(*rules) + ctx.section_vars(),
                Some(u) => {
                    let qs = u.proposed_questions@;
                    let mode = match ctx.run_mode {
                        Some(mode) => mode,
                        None => RunMode::Interactive,
                    };
                    let timeout = ctx.limits.question_default_timeout;
                    let candidates = candidates_of(
                        qs,
                        ctx.limits.question_confidence_threshold,
                        ctx.limits.max_questions_per_run,
                    );
                    var_views(r@) == (ctx.plain_vars(*rules) + ctx.section_vars()).push(
                        (
                            "questions"@,
                            ValueView::Lines(
                                asked_lines(
                                    qs,
                                    asked_of(qs, candidates, mode, timeout),
                                    views(confidences@),
                                ),
                            ),
                        ),
                    ).push(
                        (
                            "assumptions"@,
                            ValueView::Lines(
                                prefixed(
                                    assumed_of(qs, candidates, mode, timeout, qs.len()),
                                    "- "@,
                                ),
                            ),
                        ),
                    )
                },
            },
    {
        let mut vars = ctx.vars(rules);
        if let Some(u) = &ctx.understanding {
            let mode = match &ctx.run_mode {
                Some(mode) => mode.clone(),
                None => RunMode::Interactive,
            };
            let (questions, assumptions) = question_lines(u, &mode, &ctx.limits, confidences);
            set_lines(&mut vars, "questions", questions);
            set_lines(&mut vars, "assumptions", assumptions);
        }
        vars
    }
}

/// A question as it stands in the clarifier's prompt.
pub open spec fn question_shown(q: ProposedQuestion, confidence: Seq<char>) -> Seq<char> {
    "- [confidence if unasked "@ + confidence + "] "@ + q.text@ + "\n  options: "@
        + options_shown(q.options@) + "\n  why it matters: "@ + q.why_it_matters@
}

/// The questions that are asked, as they stand in the clarifier's prompt.
pub open spec fn asked_lines(
    qs: Seq<ProposedQuestion>,
    asked: Seq<(usize, QuestionPolicy)>,
    confidences: Seq<Seq<char>>,
) -> Seq<Seq<char>> {
    asked.map_values(
        |a: (usize, QuestionPolicy)| question_shown(qs[a.0 as int], confidences[a.0 as int]),
    )
}

/// The lines of the questions to ask and of the assumptions made.
fn question_lines(
    understanding: &Understanding,
    mode: &RunMode,
    limits: &RoleLimits,
    confidences: &Vec<String>,
) -> (r: (Vec<String>, Vec<String>))
    requires
        confidences@.len() == understanding.proposed_questions@.len(),
    ensures
        ({
            let qs = understanding.proposed_questions@;
            let candidates = candidates_of(
                qs,
                limits.question_confidence_threshold,
                limits.max_questions_per_run,
            );
            let timeout = limits.question_default_timeout;
            &&& views(r.0@) == asked_lines(
                qs,
                asked_of(qs, candidates, *mode, timeout),
                views(confidences@),
            )
            &&& views(r.1@) == prefixed(
                assumed_of(qs, candidates, *mode, timeout, qs.len()),
                "- "@,
            )
        }),
{
    let selection = select_questions(understanding, mode, limits);
    let ghost qs = understanding.proposed_questions@;
    let ghost candidates = candidates_of(
        qs,
        limits.question_confidence_threshold,
        limits.max_questions_per_run,
    );
    let ghost timeout = limits.question_default_timeout;
    let mut lines: Vec<String> = Vec::new();
    let mut k: usize = 0;
    while k < selection.asked.len()
        invariant
            k <= selection.asked@.len(),
            confidences@.len() == qs.len(),
            forall|j: int|
                0 <= j < selection.asked@.len() ==> (#[trigger] selection.asked@[j]).place
                    < qs.len() && *selection.asked@[j].question
                    == qs[selection.asked@[j].place as int],
            lines@.len() == k,
            forall|j: int|
                0 <= j < k ==> (#[trigger] lines@[j])@ == question_shown(
                    *selection.asked@[j].question,
                    confidences@[selection.asked@[j].place as int]@,
                ),
        decreases selection.asked@.len() - k,
    {
        let q = &selection.asked[k];
        lines.push(q.render(confidences[q.place].as_str()));
        k = k + 1;
    }
    let ghost asked = asked_of(qs, candidates, *mode, timeout);
    assert(views(lines@) =~= asked_lines(qs, asked, views(confidences@))) by {
        assert(asked.len() == selection.asked@.len());
        assert forall|j: int| 0 <= j < lines@.len() implies views(lines@)[j] == asked_lines(
            qs,
            asked,
            views(confidences@),
        )[j] by {
            assert(asked[j] == selected_views(selection.asked@)[j]);
            assert(lines@[j]@ == views(lines@)[j]);
        }
    }
    let mut assumptions: Vec<String> = Vec::new();
    assert(views(assumptions@) =~= Seq::<Seq<char>>::empty());
    push_prefixed(&mut assumptions, &selection.assumptions, "- ");
    assert(views(assumptions@) =~= prefixed(views(selection.assumptions@), "- "@));
    (lines, assumptions)
}

// ---------------------------------------------------------------------------
// Question selection
// ---------------------------------------------------------------------------
/// The first recommended option.
pub open spec fn recommended_of(options: Seq<QuestionOption>) -> Option<QuestionOption>
    decreases options.len(),
{
    if options.len() == 0 {
        None
    } else {
        match recommended_of(options.drop_last()) {
            Some(o) => Some(o),
            None => if options.last().recommended {
                Some(options.last())
            } else {
                None
            },
        }
    }
}

impl ProposedQuestion {
    pub open spec fn recommended(self) -> Option<QuestionOption> {
        recommended_of(self.options@)
    }

    /// The first recommended option.
    pub fn recommended_option(&self) -> (r: Option<&QuestionOption>)
        ensures
            match r {
                Some(o) => self.recommended() == Some(*o),
                None => self.recommended() is None,
            },
    {
        let mut i: usize = 0;
        while i < self.options.len()
            invariant
                i <= self.options@.len(),
                recommended_of(self.options@.subrange(0, i as int)) is None,
            decreases self.options@.len() - i,
        {
            proof {
                let next = self.options@.subrange(0, i + 1);
                assert(next.drop_last() =~= self.options@.subrange(0, i as int));
                assert(next.last() == self.options@[i as int]);
            }
            if self.options[i].recommended {
                proof {
                    lemma_recommended_prefix(self.options@, i + 1);
                }
                return Some(&self.options[i]);
            }
            i = i + 1;
        }
        assert(self.options@.subrange(0, self.options@.len() as int) =~= self.options@);
        None
    }

    /// Whether the confidence is below the threshold.
    pub fn should_ask(&self, threshold: u32) -> (b: bool)
        ensures
            b == (self.confidence_if_unasked < threshold),
    {
        self.confidence_if_unasked < threshold
    }
}

proof fn lemma_recommended_prefix(options: Seq<QuestionOption>, n: int)
    requires
        0 <= n <= options.len(),
        recommended_of(options.subrange(0, n)) is Some,
    ensures
        recommended_of(options) == recommended_of(options.subrange(0, n)),
    decreases options.len(),
{
    if n == options.len() {
        assert(options.subrange(0, n) =~= options);
    } else {
        let before = options.drop_last();
        assert(before.subrange(0, n) =~= options.subrange(0, n));
        lemma_recommended_prefix(before, n);
    }
}

/// A question to ask, with the policy that the run mode implies.
#[derive(Debug, PartialEq, Eq)]
pub struct SelectedQuestion<'a> {
    pub question: &'a ProposedQuestion,
    /// Its place among the proposed questions.
    pub place: usize,
    /// When, and whether, an unanswered question falls back to its default.
    pub policy: QuestionPolicy,
}

/// An option as text: its label, a star where it is recommended, its description.
pub open spec fn option_shown(o: QuestionOption) -> Seq<char> {
    let starred = if o.recommended {
        o.label@ + "*"@
    } else {
        o.label@
    };
    match o.description {
        Some(d) => starred + " ("@ + d@ + ")"@,
        None => starred,
    }
}

/// The options as text.
pub open spec fn options_shown(options: Seq<QuestionOption>) -> Seq<char> {
    if options.len() == 0 {
        "free text"@
    } else {
        join_of(options.map_values(|o: QuestionOption| option_shown(o)), " | "@)
    }
}

fn show_options(options: &Vec<QuestionOption>) -> (r: String)
    ensures
        r@ == options_shown(options@),
{
    if options.len() == 0 {
        return "free text".to_owned();
    }
    let ghost all = options@.map_values(|o: QuestionOption| option_shown(o));
    let mut out: Vec<String> = Vec::new();
    let mut i: usize = 0;
    assert(views(out@) =~= all.subrange(0, 0));
    while i < options.len()
        invariant
            i <= options@.len(),
            all == options@.map_values(|o: QuestionOption| option_shown(o)),
            views(out@) == all.subrange(0, i as int),
        decreases options@.len() - i,
    {
        let o = &options[i];
        let starred = if o.recommended {
            cat(o.label.as_str(), "*")
        } else {
            o.label.clone()
        };
        let shown = match &o.description {
            Some(d) => {
                let mut s = cat3(starred.as_str(), " (", d.as_str());
                s.append(")");
                s
            },
            None => starred,
        };
        push_line(&mut out, shown);
        i = i + 1;
        assert(views(out@) =~= all.subrange(0, i as int));
    }
    assert(all.subrange(0, all.len() as int) =~= all);
    join(&out, " | ")
}

impl<'a> SelectedQuestion<'a> {
    pub open spec fn rendered(self, confidence: Seq<char>) -> Seq<char> {
        question_shown(*self.question, confidence)
    }

    /// The question as it stands in the clarifier's prompt; `confidence` is its
    /// confidence with two decimals.
    pub fn render(&self, confidence: &str) -> (r: String)
        ensures
            r@ == self.rendered(confidence@),
    {
        let mut s = cat3("- [confidence if unasked ", confidence, "] ");
        s.append(self.question.text.as_str());
        s.append("\n  options: ");
        let options = show_options(&self.question.options);
        s.append(options.as_str());
        s.append("\n  why it matters: ");
        s.append(self.question.why_it_matters.as_str());
        s
    }
}

/// What the selection rules decided.
#[derive(Debug, PartialEq, Eq)]
pub struct QuestionSelection<'a> {
    /// Questions to ask, lowest confidence first.
    pub asked: Vec<SelectedQuestion<'a>>,
    /// One line for every proposal that is not asked.
    pub assumptions: Vec<String>,
}

/// `i` put into `ranked`, after every question that is not more confident.
pub open spec fn insert_ranked(qs: Seq<ProposedQuestion>, ranked: Seq<usize>, i: usize) -> Seq<usize>
    decreases ranked.len(),
{
    if ranked.len() == 0 || qs[ranked.last() as int].confidence_if_unasked
        <= qs[i as int].confidence_if_unasked {
        ranked.push(i)
    } else {
        insert_ranked(qs, ranked.drop_last(), i).push(ranked.last())
    }
}

/// The first `n` questions that are below the threshold, lowest confidence
/// first, and in the order proposed where equal.
pub open spec fn ranked_of(qs: Seq<ProposedQuestion>, threshold: u32, n: nat) -> Seq<usize>
    decreases n,
{
    if n == 0 {
        Seq::empty()
    } else {
        let before = ranked_of(qs, threshold, (n - 1) as nat);
        if qs[n - 1].confidence_if_unasked < threshold {
            insert_ranked(qs, before, (n - 1) as usize)
        } else {
            before
        }
    }
}

/// The indices of the questions worth asking: below the threshold, lowest
/// confidence first, at most `max` of them.
pub open spec fn candidates_of(qs: Seq<ProposedQuestion>, threshold: u32, max: usize) -> Seq<usize> {
    let ranked = ranked_of(qs, threshold, qs.len());
    if ranked.len() <= max {
        ranked
    } else {
        ranked.subrange(0, max as int)
    }
}

/// The policy that the mode gives a question: `None` is not to ask it at all.
pub open spec fn policy_of(mode: RunMode, recommended: bool, timeout: Span) -> Option<
    QuestionPolicy,
> {
    match mode {
        RunMode::Interactive => Some(QuestionPolicy::Block),
        RunMode::Headless => Some(
            if recommended {
                QuestionPolicy::immediate()
            } else {
                QuestionPolicy::DefaultAfter { timeout }
            },
        ),
        RunMode::Kohral { .. } => if recommended {
            Some(QuestionPolicy::immediate())
        } else {
            None
        },
    }
}

/// The assumption made in place of a question.
pub open spec fn assumption_of(q: ProposedQuestion) -> Seq<char> {
    match q.recommended() {
        Some(o) => ASSUMPTION_PREFIX@ + q.text@ + " → "@ + o.label@,
        None => ASSUMPTION_PREFIX@ + q.text@ + " → planner's best guess (nobody could be asked)"@,
    }
}

/// The question at index `i` is asked.
pub open spec fn is_asked(
    qs: Seq<ProposedQuestion>,
    candidates: Seq<usize>,
    mode: RunMode,
    timeout: Span,
    i: int,
) -> bool {
    candidates.contains(i as usize) && policy_of(mode, qs[i].recommended() is Some, timeout) is Some
}

/// The candidates that the mode lets be asked, with their policies, in order.
pub open spec fn asked_of(
    qs: Seq<ProposedQuestion>,
    candidates: Seq<usize>,
    mode: RunMode,
    timeout: Span,
) -> Seq<(usize, QuestionPolicy)>
    decreases candidates.len(),
{
    if candidates.len() == 0 {
        Seq::empty()
    } else {
        let before = asked_of(qs, candidates.drop_last(), mode, timeout);
        let q = qs[candidates.last() as int];
        match policy_of(mode, q.recommended() is Some, timeout) {
            Some(policy) => before.push((candidates.last(), policy)),
            None => before,
        }
    }
}

/// The assumptions for the first `n` questions that are not asked, in the order
/// proposed.
pub open spec fn assumed_of(
    qs: Seq<ProposedQuestion>,
    candidates: Seq<usize>,
    mode: RunMode,
    timeout: Span,
    n: nat,
) -> Seq<Seq<char>>
    decreases n,
{
    if n == 0 {
        Seq::empty()
    } else {
        let before = assumed_of(qs, candidates, mode, timeout, (n - 1) as nat);
        if is_asked(qs, candidates, mode, timeout, n - 1) {
            before
        } else {
            before.push(assumption_of(qs[n - 1]))
        }
    }
}

/// The places and policies of selected questions.
pub open spec fn selected_views(s: Seq<SelectedQuestion>) -> Seq<(usize, QuestionPolicy)> {
    s.map_values(|q: SelectedQuestion| (q.place, q.policy))
}

proof fn lemma_insert_ranked(qs: Seq<ProposedQuestion>, ranked: Seq<usize>, i: usize, p: int)
    requires
        0 <= p <= ranked.len(),
        forall|k: int|
            p <= k < ranked.len() ==> qs[(#[trigger] ranked[k]) as int].confidence_if_unasked
                > qs[i as int].confidence_if_unasked,
        p > 0 ==> qs[ranked[p - 1] as int].confidence_if_unasked
            <= qs[i as int].confidence_if_unasked,
    ensures
        insert_ranked(qs, ranked, i) == ranked.insert(p, i),
    decreases ranked.len(),
{
    if p == ranked.len() {
        assert(ranked.insert(p, i) =~= ranked.push(i));
        if ranked.len() > 0 {
            assert(ranked.last() == ranked[p - 1]);
        }
    } else {
        let before = ranked.drop_last();
        assert(qs[ranked[ranked.len() - 1] as int].confidence_if_unasked
            > qs[i as int].confidence_if_unasked);
        assert forall|k: int| p <= k < before.len() implies qs[(
        #[trigger] before[k]) as int].confidence_if_unasked > qs[i as int].confidence_if_unasked by {
            assert(before[k] == ranked[k]);
        }
        lemma_insert_ranked(qs, before, i, p);
        assert(ranked.insert(p, i) =~= before.insert(p, i).push(ranked.last()));
    }
}

/// The ranking holds indices of the first `n` questions, each once, only such as
/// are below the threshold, and all of them; confidence never decreases along it.
proof fn lemma_ranked(qs: Seq<ProposedQuestion>, threshold: u32, n: nat)
    requires
        n <= qs.len(),
        qs.len() <= usize::MAX,
    ensures
        ({
            let r = ranked_of(qs, threshold, n);
            &&& r.len() <= n
            &&& r.no_duplicates()
            &&& forall|k: int|
                0 <= k < r.len() ==> (#[trigger] r[k]) < n && qs[r[k] as int].confidence_if_unasked
                    < threshold
            &&& forall|i: int|
                0 <= i < n && qs[i].confidence_if_unasked < threshold ==> r.contains(
                    #[trigger] (i as usize),
                )
            &&& forall|k: int, l: int|
                0 <= k < l < r.len() ==> qs[(#[trigger] r[k]) as int].confidence_if_unasked
                    <= qs[(#[trigger] r[l]) as int].confidence_if_unasked
        }),
    decreases n,
{
    if n > 0 {
        lemma_ranked(qs, threshold, (n - 1) as nat);
        let b = ranked_of(qs, threshold, (n - 1) as nat);
        let r = ranked_of(qs, threshold, n);
        let i = (n - 1) as usize;
        if qs[n - 1].confidence_if_unasked < threshold {
            let p = split_point(qs, b, i, b.len());
            lemma_split_point(qs, b, i, b.len());
            lemma_insert_ranked(qs, b, i, p);
            assert(r == b.insert(p, i));
            assert forall|k: int| 0 <= k < r.len() implies (#[trigger] r[k]) < n && qs[r[k] as int].confidence_if_unasked
                < threshold by {
                if k < p {
                    assert(r[k] == b[k]);
                } else if k > p {
                    assert(r[k] == b[k - 1]);
                }
            }
            assert(r.no_duplicates()) by {
                assert forall|k: int, l: int| 0 <= k < r.len() && 0 <= l < r.len() && k
                    != l implies r[k] != r[l] by {
                    let kk = if k < p { k } else { k - 1 };
                    let ll = if l < p { l } else { l - 1 };
                    if k != p {
                        assert(r[k] == b[kk]);
                    }
                    if l != p {
                        assert(r[l] == b[ll]);
                    }
                }
            }
            assert forall|j: int| 0 <= j < n && qs[j].confidence_if_unasked
                < threshold implies r.contains(#[trigger] (j as usize)) by {
                if j == n - 1 {
                    assert(r[p] == j as usize);
                } else {
                    assert(b.contains(j as usize));
                    let k = choose|k: int| 0 <= k < b.len() && b[k] == j as usize;
                    if k < p {
                        assert(r[k] == b[k]);
                    } else {
                        assert(r[k + 1] == b[k]);
                    }
                }
            }
            assert forall|k: int, l: int| 0 <= k < l < r.len() implies qs[(
            #[trigger] r[k]) as int].confidence_if_unasked <= qs[(
            #[trigger] r[l]) as int].confidence_if_unasked by {
                let kk = if k < p { k } else { k - 1 };
                let ll = if l < p { l } else { l - 1 };
                if k != p {
                    assert(r[k] == b[kk]);
                }
                if l != p {
                    assert(r[l] == b[ll]);
                }
                if k == p {
                    assert(qs[b[ll] as int].confidence_if_unasked > qs[i as int].confidence_if_unasked);
                } else if l == p {
                    if kk < p - 1 {
                        assert(qs[b[kk] as int].confidence_if_unasked <= qs[b[p - 1] as int].confidence_if_unasked);
                    }
                }
            }
        } else {
            assert forall|j: int| 0 <= j < n && qs[j].confidence_if_unasked
                < threshold implies r.contains(#[trigger] (j as usize)) by {
                assert(j < n - 1);
            }
        }
    }
}

/// Where `i` goes among the first `n` of `ranked`.
spec fn split_point(qs: Seq<ProposedQuestion>, ranked: Seq<usize>, i: usize, n: nat) -> int
    decreases n,
{
    if n == 0 || qs[ranked[n - 1] as int].confidence_if_unasked
        <= qs[i as int].confidence_if_unasked {
        n as int
    } else {
        split_point(qs, ranked, i, (n - 1) as nat)
    }
}

proof fn lemma_split_point(qs: Seq<ProposedQuestion>, ranked: Seq<usize>, i: usize, n: nat)
    requires
        n <= ranked.len(),
    ensures
        0 <= split_point(qs, ranked, i, n) <= n,
        forall|k: int|
            split_point(qs, ranked, i, n) <= k < n ==> qs[(
            #[trigger] ranked[k]) as int].confidence_if_unasked > qs[i as int].confidence_if_unasked,
        split_point(qs, ranked, i, n) > 0 ==> qs[ranked[split_point(qs, ranked, i, n) - 1] as int].confidence_if_unasked
            <= qs[i as int].confidence_if_unasked,
    decreases n,
{
    if n > 0 && qs[ranked[n - 1] as int].confidence_if_unasked
        > qs[i as int].confidence_if_unasked {
        lemma_split_point(qs, ranked, i, (n - 1) as nat);
    }
}

/// The questions worth asking: below the threshold, lowest confidence first, at
/// most `max` of them, as indices.
pub fn questions_to_ask(questions: &Vec<ProposedQuestion>, threshold: u32, max: usize) -> (r: Vec<
    usize,
>)
    ensures
        r@ == candidates_of(questions@, threshold, max),
        forall|k: int| 0 <= k < r@.len() ==> (#[trigger] r@[k]) < questions@.len(),
{
    let mut ranked: Vec<usize> = Vec::new();
    let mut i: usize = 0;
    let n: usize = questions.len();
    while i < n
        invariant
            i <= n,
            n == questions@.len(),
            ranked@ == ranked_of(questions@, threshold, i as nat),
            ranked@.len() <= i,
            forall|k: int| 0 <= k < ranked@.len() ==> (#[trigger] ranked@[k]) < i,
        decreases n - i,
    {
        if questions[i].should_ask(threshold) {
            let mut p: usize = ranked.len();
            while p > 0 && questions[ranked[p - 1]].confidence_if_unasked
                > questions[i].confidence_if_unasked
                invariant
                    p <= ranked@.len(),
                    i < n,
                    n == questions@.len(),
                    forall|k: int| 0 <= k < ranked@.len() ==> (#[trigger] ranked@[k]) < i,
                    forall|k: int|
                        p <= k < ranked@.len() ==> questions@[(
                        #[trigger] ranked@[k]) as int].confidence_if_unasked
                            > questions@[i as int].confidence_if_unasked,
                decreases p,
            {
                p = p - 1;
            }
            proof {
                lemma_insert_ranked(questions@, ranked@, i, p as int);
            }
            let ghost before = ranked@;
            ranked.insert(p, i);
            assert forall|k: int| 0 <= k < ranked@.len() implies (#[trigger] ranked@[k]) < i + 1 by {
                if k < p {
                    assert(ranked@[k] == before[k]);
                } else if k > p {
                    assert(ranked@[k] == before[k - 1]);
                }
            }
        }
        i = i + 1;
    }
    if ranked.len() > max {
        ranked.truncate(max);
    }
    ranked
}

fn mode_policy(mode: &RunMode, recommended: bool, timeout: Span) -> (r: Option<QuestionPolicy>)
    ensures
        r == policy_of(*mode, recommended, timeout),
{
    match mode {
        RunMode::Interactive => Some(QuestionPolicy::Block),
        RunMode::Headless => Some(
            if recommended {
                QuestionPolicy::immediate_default()
            } else {
                QuestionPolicy::DefaultAfter { timeout }
            },
        ),
        RunMode::Kohral { .. } => if recommended {
            Some(QuestionPolicy::immediate_default())
        } else {
            None
        },
    }
}

/// The assumption made in place of a question.
pub fn assumption_for(question: &ProposedQuestion) -> (r: String)
    ensures
        r@ == assumption_of(*question),
{
    let head = cat(ASSUMPTION_PREFIX, question.text.as_str());
    match question.recommended_option() {
        Some(option) => cat3(head.as_str(), " → ", option.label.as_str()),
        None => cat(head.as_str(), " → planner's best guess (nobody could be asked)"),
    }
}

/// Whether `i` is one of `v`.
pub fn contains_index(v: &Vec<usize>, i: usize) -> (b: bool)
    ensures
        b == v@.contains(i),
{
    let mut k: usize = 0;
    while k < v.len()
        invariant
            k <= v@.len(),
            forall|j: int| 0 <= j < k ==> v@[j] != i,
        decreases v@.len() - k,
    {
        if v[k] == i {
            assert(v@[k as int] == i);
            return true;
        }
        k = k + 1;
    }
    false
}

/// Applies the selection rules: a proposal is asked only where its confidence is
/// below the threshold, lowest confidence first, at most so many as the limit
/// allows. Interactive runs block on every question; headless runs apply a
/// recommended option at once and otherwise wait; Kohral runs never wait, so a
/// question without a recommended option is not asked at all. Every proposal
/// that is not asked becomes an assumption.
pub fn select_questions<'a>(
    understanding: &'a Understanding,
    mode: &RunMode,
    limits: &RoleLimits,
) -> (r: QuestionSelection<'a>)
    ensures
        ({
            let qs = understanding.proposed_questions@;
            let candidates = candidates_of(
                qs,
                limits.question_confidence_threshold,
                limits.max_questions_per_run,
            );
            let timeout = limits.question_default_timeout;
            &&& selected_views(r.asked@) == asked_of(qs, candidates, *mode, timeout)
            &&& forall|k: int|
                0 <= k < r.asked@.len() ==> (#[trigger] r.asked@[k]).place < qs.len()
                    && *r.asked@[k].question == qs[r.asked@[k].place as int]
            &&& views(r.assumptions@) == assumed_of(qs, candidates, *mode, timeout, qs.len())
        }),
{
    let questions = &understanding.proposed_questions;
    let ghost qs = questions@;
    let timeout = limits.question_default_timeout;
    let candidates = questions_to_ask(
        questions,
        limits.question_confidence_threshold,
        limits.max_questions_per_run,
    );
    let mut asked: Vec<SelectedQuestion<'a>> = Vec::new();
    let mut k: usize = 0;
    assert(selected_views(asked@) =~= asked_of(
        qs,
        candidates@.subrange(0, 0),
        *mode,
        timeout,
    ));
    while k < candidates.len()
        invariant
            k <= candidates@.len(),
            questions == &understanding.proposed_questions,
            qs == questions@,
            forall|j: int| 0 <= j < candidates@.len() ==> (#[trigger] candidates@[j]) < qs.len(),
            selected_views(asked@) == asked_of(
                qs,
                candidates@.subrange(0, k as int),
                *mode,
                timeout,
            ),
            forall|j: int|
                0 <= j < asked@.len() ==> (#[trigger] asked@[j]).place < qs.len()
                    && *asked@[j].question == qs[asked@[j].place as int],
        decreases candidates@.len() - k,
    {
        let place: usize = candidates[k];
        let question: &'a ProposedQuestion = &understanding.proposed_questions[place];
        let ghost before = asked@;
        proof {
            let next = candidates@.subrange(0, k + 1);
            assert(next.drop_last() =~= candidates@.subrange(0, k as int));
            assert(next.last() == candidates@[k as int]);
        }
        let recommended = question.recommended_option().is_some();
        if let Some(policy) = mode_policy(mode, recommended, timeout) {
            asked.push(SelectedQuestion { question, place, policy });
            assert(selected_views(asked@) =~= selected_views(before).push((place, policy)));
        }
        k = k + 1;
    }
    assert(candidates@.subrange(0, candidates@.len() as int) =~= candidates@);
    let mut assumptions: Vec<String> = Vec::new();
    let mut i: usize = 0;
    assert(views(assumptions@) =~= Seq::<Seq<char>>::empty());
    while i < questions.len()
        invariant
            i <= questions@.len(),
            qs == questions@,
            views(assumptions@) == assumed_of(qs, candidates@, *mode, timeout, i as nat),
        decreases questions@.len() - i,
    {
        let question = &questions[i];
        let recommended = question.recommended_option().is_some();
        let asks = contains_index(&candidates, i) && mode_policy(mode, recommended, timeout).is_some();
        if !asks {
            push_line(&mut assumptions, assumption_for(question));
        }
        i = i + 1;
    }
    QuestionSelection { asked, assumptions }
}

// ---------------------------------------------------------------------------
// Laws
// ---------------------------------------------------------------------------
/// Only questions below the threshold are candidates, lowest confidence first,
/// none twice, and never more than the limit; no other question is less confident
/// than a candidate.
pub proof fn law_candidates(qs: Seq<ProposedQuestion>, threshold: u32, max: usize)
    requires
        qs.len() <= usize::MAX,
    ensures
        ({
            let c = candidates_of(qs, threshold, max);
            &&& c.len() <= max
            &&& c.no_duplicates()
            &&& forall|k: int|
                0 <= k < c.len() ==> (#[trigger] c[k]) < qs.len()
                    && qs[c[k] as int].confidence_if_unasked < threshold
            &&& forall|k: int, l: int|
                0 <= k < l < c.len() ==> qs[(#[trigger] c[k]) as int].confidence_if_unasked
                    <= qs[(#[trigger] c[l]) as int].confidence_if_unasked
            &&& forall|k: int, i: int|
                0 <= k < c.len() && 0 <= i < qs.len() && !c.contains(i as usize) ==> qs[(
                #[trigger] c[k]) as int].confidence_if_unasked <= (
                #[trigger] qs[i]).confidence_if_unasked
        }),
{
    lemma_ranked(qs, threshold, qs.len());
    let r = ranked_of(qs, threshold, qs.len());
    let c = candidates_of(qs, threshold, max);
    assert forall|k: int| 0 <= k < c.len() implies (#[trigger] c[k]) == r[k] by {}
    assert forall|k: int, i: int|
        0 <= k < c.len() && 0 <= i < qs.len() && !c.contains(i as usize) implies qs[(
    #[trigger] c[k]) as int].confidence_if_unasked <= (
    #[trigger] qs[i]).confidence_if_unasked by {
        if qs[i].confidence_if_unasked < threshold {
            assert(r.contains(i as usize));
            let l = choose|l: int| 0 <= l < r.len() && r[l] == i as usize;
            if l < c.len() {
                assert(c[l] == r[l]);
            }
            assert(qs[r[k] as int].confidence_if_unasked <= qs[r[l] as int].confidence_if_unasked);
        }
    }
}

/// No proposal that is left out is less confident than one that is asked, among
/// those that the mode lets be asked at all.
pub proof fn law_the_least_confident_are_asked(
    qs: Seq<ProposedQuestion>,
    threshold: u32,
    max: usize,
    mode: RunMode,
    timeout: Span,
    k: int,
    i: int,
)
    requires
        qs.len() <= usize::MAX,
        0 <= k < asked_of(qs, candidates_of(qs, threshold, max), mode, timeout).len(),
        0 <= i < qs.len(),
        !is_asked(qs, candidates_of(qs, threshold, max), mode, timeout, i),
        policy_of(mode, qs[i].recommended() is Some, timeout) is Some,
    ensures
        qs[asked_of(
            qs,
            candidates_of(qs, threshold, max),
            mode,
            timeout,
        )[k].0 as int].confidence_if_unasked <= qs[i].confidence_if_unasked,
{
    let c = candidates_of(qs, threshold, max);
    law_candidates(qs, threshold, max);
    lemma_asked_places(qs, c, mode, timeout);
    let places = places_of(qs, c, mode, timeout);
    assert(places[k] == asked_of(qs, c, mode, timeout)[k].0);
    assert(places.contains(places[k]));
    let j = choose|j: int| 0 <= j < c.len() && c[j] == places[k];
    assert(qs[c[j] as int].confidence_if_unasked <= qs[i].confidence_if_unasked);
}

/// Kohral runs never wait: whatever they ask has a recommended option and takes
/// it at once. Interactive runs block on every question they ask. Headless runs
/// take a recommended option at once and otherwise wait for the timeout.
pub proof fn law_policies_follow_the_mode(
    qs: Seq<ProposedQuestion>,
    candidates: Seq<usize>,
    mode: RunMode,
    timeout: Span,
    k: int,
)
    requires
        0 <= k < asked_of(qs, candidates, mode, timeout).len(),
    ensures
        ({
            let (place, policy) = asked_of(qs, candidates, mode, timeout)[k];
            &&& mode is Kohral ==> qs[place as int].recommended() is Some && policy == QuestionPolicy::immediate()
            &&& mode is Interactive ==> policy == QuestionPolicy::Block
            &&& mode is Headless ==> policy == (if qs[place as int].recommended() is Some {
                QuestionPolicy::immediate()
            } else {
                QuestionPolicy::DefaultAfter { timeout }
            })
        }),
    decreases candidates.len(),
{
    if candidates.len() > 0 {
        let before = asked_of(qs, candidates.drop_last(), mode, timeout);
        if k < before.len() {
            law_policies_follow_the_mode(qs, candidates.drop_last(), mode, timeout, k);
        }
    }
}

/// The places of the questions that are asked.
pub open spec fn places_of(
    qs: Seq<ProposedQuestion>,
    candidates: Seq<usize>,
    mode: RunMode,
    timeout: Span,
) -> Seq<usize> {
    asked_of(qs, candidates, mode, timeout).map_values(|a: (usize, QuestionPolicy)| a.0)
}

/// A place is asked just where it is a candidate that the mode lets be asked, and
/// none is asked twice.
pub proof fn lemma_asked_places(
    qs: Seq<ProposedQuestion>,
    candidates: Seq<usize>,
    mode: RunMode,
    timeout: Span,
)
    requires
        candidates.no_duplicates(),
    ensures
        places_of(qs, candidates, mode, timeout).no_duplicates(),
        forall|p: usize| #[trigger]
            places_of(qs, candidates, mode, timeout).contains(p) <==> candidates.contains(p)
                && policy_of(mode, qs[p as int].recommended() is Some, timeout) is Some,
    decreases candidates.len(),
{
    let places = places_of(qs, candidates, mode, timeout);
    if candidates.len() > 0 {
        let rest = candidates.drop_last();
        let before = places_of(qs, rest, mode, timeout);
        let last = candidates.last();
        assert forall|i: int, j: int| 0 <= i < rest.len() && 0 <= j < rest.len() && i
            != j implies rest[i] != rest[j] by {
            assert(candidates[i] != candidates[j]);
        }
        lemma_asked_places(qs, rest, mode, timeout);
        assert(!rest.contains(last)) by {
            if rest.contains(last) {
                let i = choose|i: int| 0 <= i < rest.len() && rest[i] == last;
                assert(candidates[i] == candidates[candidates.len() - 1]);
            }
        }
        assert forall|p: usize| candidates.contains(p) <==> rest.contains(p) || p == last by {
            if candidates.contains(p) {
                let i = choose|i: int| 0 <= i < candidates.len() && candidates[i] == p;
                if i < rest.len() {
                    assert(rest[i] == p);
                }
            }
            if rest.contains(p) {
                let i = choose|i: int| 0 <= i < rest.len() && rest[i] == p;
                assert(candidates[i] == p);
            }
            assert(candidates[candidates.len() - 1] == last);
        }
        if policy_of(mode, qs[last as int].recommended() is Some, timeout) is Some {
            assert(places =~= before.push(last));
            assert forall|p: usize| places.contains(p) <==> before.contains(p) || p == last by {
                if before.contains(p) {
                    let i = choose|i: int| 0 <= i < before.len() && before[i] == p;
                    assert(places[i] == p);
                }
                assert(places[before.len() as int] == last);
            }
            assert(!before.contains(last));
        } else {
            assert(places =~= before);
        }
        assert forall|p: usize| #[trigger] places.contains(p) <==> candidates.contains(p)
            && policy_of(mode, qs[p as int].recommended() is Some, timeout) is Some by {
            assert(before.contains(p) <==> rest.contains(p) && policy_of(
                mode,
                qs[p as int].recommended() is Some,
                timeout,
            ) is Some);
        }
    }
}

/// The first `n` places that are asked.
spec fn asked_before(
    qs: Seq<ProposedQuestion>,
    candidates: Seq<usize>,
    mode: RunMode,
    timeout: Span,
    n: nat,
) -> Set<usize>
    decreases n,
{
    if n == 0 {
        Set::empty()
    } else {
        let before = asked_before(qs, candidates, mode, timeout, (n - 1) as nat);
        if is_asked(qs, candidates, mode, timeout, n - 1) {
            before.insert((n - 1) as usize)
        } else {
            before
        }
    }
}

proof fn lemma_asked_before(
    qs: Seq<ProposedQuestion>,
    candidates: Seq<usize>,
    mode: RunMode,
    timeout: Span,
    n: nat,
)
    requires
        n <= usize::MAX + 1,
    ensures
        ({
            let set = asked_before(qs, candidates, mode, timeout, n);
            &&& set.finite()
            &&& forall|p: usize| #[trigger]
                set.contains(p) <==> p < n && is_asked(qs, candidates, mode, timeout, p as int)
            &&& set.len() + assumed_of(qs, candidates, mode, timeout, n).len() == n
        }),
    decreases n,
{
    if n > 0 {
        lemma_asked_before(qs, candidates, mode, timeout, (n - 1) as nat);
    }
}

/// Every proposal is either asked or becomes an assumption, and none both.
pub proof fn law_every_proposal_is_asked_or_assumed(
    qs: Seq<ProposedQuestion>,
    threshold: u32,
    max: usize,
    mode: RunMode,
    timeout: Span,
)
    requires
        qs.len() <= usize::MAX,
    ensures
        ({
            let c = candidates_of(qs, threshold, max);
            asked_of(qs, c, mode, timeout).len() + assumed_of(
                qs,
                c,
                mode,
                timeout,
                qs.len(),
            ).len() == qs.len()
        }),
{
    let c = candidates_of(qs, threshold, max);
    law_candidates(qs, threshold, max);
    lemma_asked_places(qs, c, mode, timeout);
    lemma_asked_before(qs, c, mode, timeout, qs.len());
    let places = places_of(qs, c, mode, timeout);
    let set = asked_before(qs, c, mode, timeout, qs.len());
    assert(places.to_set() =~= set) by {
        assert forall|p: usize| places.contains(p) <==> set.contains(p) by {
            if c.contains(p) {
                let k = choose|k: int| 0 <= k < c.len() && c[k] == p;
                assert(c[k] < qs.len());
            }
        }
    }
    places.unique_seq_to_set();
}

proof fn lemma_insert_has(qs: Seq<ProposedQuestion>, ranked: Seq<usize>, i: usize, x: usize)
    requires
        x == i || ranked.contains(x),
    ensures
        insert_ranked(qs, ranked, i).contains(x),
    decreases ranked.len(),
{
    let out = insert_ranked(qs, ranked, i);
    if ranked.len() == 0 || qs[ranked.last() as int].confidence_if_unasked
        <= qs[i as int].confidence_if_unasked {
        assert(out[ranked.len() as int] == i);
        if ranked.contains(x) {
            let k = choose|k: int| 0 <= k < ranked.len() && ranked[k] == x;
            assert(out[k] == x);
        }
    } else {
        let rest = ranked.drop_last();
        let before = insert_ranked(qs, rest, i);
        assert(out[before.len() as int] == ranked.last());
        if x == i || rest.contains(x) {
            lemma_insert_has(qs, rest, i, x);
            let k = choose|k: int| 0 <= k < before.len() && before[k] == x;
            assert(out[k] == x);
        } else {
            let k = choose|k: int| 0 <= k < ranked.len() && ranked[k] == x;
            if k < rest.len() {
                assert(rest[k] == x);
            }
        }
    }
}

proof fn lemma_ranked_has(qs: Seq<ProposedQuestion>, threshold: u32, n: nat, i: int)
    requires
        0 <= i < n <= qs.len() <= usize::MAX,
        qs[i].confidence_if_unasked < threshold,
    ensures
        ranked_of(qs, threshold, n).contains(i as usize),
    decreases n,
{
    let before = ranked_of(qs, threshold, (n - 1) as nat);
    if i < n - 1 {
        lemma_ranked_has(qs, threshold, (n - 1) as nat, i);
    }
    if qs[n - 1].confidence_if_unasked < threshold {
        lemma_insert_has(qs, before, (n - 1) as usize, i as usize);
    }
}

/// A question below the threshold is a candidate wherever there is room for it;
/// only the limit keeps one out.
pub proof fn law_unsure_questions_are_candidates(
    qs: Seq<ProposedQuestion>,
    threshold: u32,
    max: usize,
    i: int,
)
    requires
        qs.len() <= usize::MAX,
        0 <= i < qs.len(),
        qs[i].confidence_if_unasked < threshold,
    ensures
        candidates_of(qs, threshold, max).contains(i as usize) || candidates_of(
            qs,
            threshold,
            max,
        ).len() == max,
{
    lemma_ranked_has(qs, threshold, qs.len(), i);
}

/// The recommended option is the first that is marked as such, where one is.
pub proof fn law_the_first_recommendation_counts(options: Seq<QuestionOption>, k: int)
    ensures
        (forall|j: int| 0 <= j < options.len() ==> !(#[trigger] options[j]).recommended)
            ==> recommended_of(options) is None,
        0 <= k < options.len() && options[k].recommended && (forall|j: int|
            0 <= j < k ==> !(#[trigger] options[j]).recommended) ==> recommended_of(options) == Some(
            options[k],
        ),
    decreases options.len(),
{
    if options.len() > 0 {
        let rest = options.drop_last();
        law_the_first_recommendation_counts(rest, k);
        if forall|j: int| 0 <= j < options.len() ==> !(#[trigger] options[j]).recommended {
            assert forall|j: int| 0 <= j < rest.len() implies !(#[trigger] rest[j]).recommended by {
                assert(rest[j] == options[j]);
            }
            assert(!options[options.len() - 1].recommended);
        }
        if 0 <= k < options.len() && options[k].recommended && (forall|j: int|
            0 <= j < k ==> !(#[trigger] options[j]).recommended) {
            assert forall|j: int| 0 <= j < k && j < rest.len() implies !(
            #[trigger] rest[j]).recommended by {
                assert(rest[j] == options[j]);
            }
            if k < rest.len() {
                assert(rest[k] == options[k]);
            }
        }
    }
}

/// How the mode lets a question be asked: a person is waited for; without one the
/// recommended option is taken at once, or the timeout is waited for; and a Kohral
/// run asks nothing without a recommendation.
pub proof fn law_the_mode_decides_how_to_ask(mode: RunMode, recommended: bool, timeout: Span)
    ensures
        mode is Interactive ==> policy_of(mode, recommended, timeout) == Some(
            QuestionPolicy::Block,
        ),
        mode is Headless && recommended ==> policy_of(mode, recommended, timeout) == Some(
            QuestionPolicy::DefaultAfter { timeout: Span { secs: 0, nanos: 0 } },
        ),
        mode is Headless && !recommended ==> policy_of(mode, recommended, timeout) == Some(
            QuestionPolicy::DefaultAfter { timeout },
        ),
        mode is Kohral && recommended ==> policy_of(mode, recommended, timeout) == Some(
            QuestionPolicy::DefaultAfter { timeout: Span { secs: 0, nanos: 0 } },
        ),
        mode is Kohral && !recommended ==> policy_of(mode, recommended, timeout) is None,
{
}

/// What is not asked is assumed in words: the question, and the recommended option
/// or that the planner guesses.
pub proof fn law_assumptions_name_their_question(q: ProposedQuestion)
    ensures
        q.recommended() matches Some(o) ==> assumption_of(q) == ASSUMPTION_PREFIX@ + q.text@
            + " → "@ + o.label@,
        q.recommended() is None ==> assumption_of(q) == ASSUMPTION_PREFIX@ + q.text@
            + " → planner's best guess (nobody could be asked)"@,
{
}

/// An option is shown with its label, a star where it is recommended, and its
/// description in brackets; a question without options takes free text.
pub proof fn law_options_are_shown(o: QuestionOption)
    ensures
        o.recommended && o.description is None ==> option_shown(o) == o.label@ + "*"@,
        !o.recommended && o.description is None ==> option_shown(o) == o.label@,
        o.description matches Some(d) ==> !o.recommended ==> option_shown(o) == o.label@ + " ("@
            + d@ + ")"@,
        options_shown(Seq::empty()) == "free text"@,
{
}

} // verus!
