//! [`RoleContext`]: everything a role may put in a prompt, and the values it is
//! built from. A prompt is a function of its context alone.
use vstd::prelude::*;

use super::memory_block::MemoryBlock;
use crate::domain::{
    Answer, ArtifactKind, Budget, Complexity, QuestionOption, RepoKind, RunMode, Span, Usage,
};
use crate::money::{amount_text, Amount};
use crate::text::{
    all_space, cat, cat3, decimal, decimal_of, has_prefix, is_blank, join, join_of, lines,
    lines_of, prefixed, push_line, push_prefixed, trim, trim_of, trim_start, trim_start_of, views,
};

verus! {

/// Prefix of an assumption made in place of a question.
pub const ASSUMPTION_PREFIX: &'static str = "Assumed: ";

/// Marker that the platform writes over a file it considers prompt-injected;
/// such a file counts as missing.
pub const BLOCKED_MARKER: &'static str = "[BLOCKED";

// ---------------------------------------------------------------------------
// Limits
// ---------------------------------------------------------------------------
/// The configured numbers that a prompt or a selection rule needs.
#[derive(Debug, Clone, Copy, PartialEq, Eq, Structural)]
pub struct RoleLimits {
    /// IEEE bit pattern of the threshold, which orders like the number.
    pub question_confidence_threshold: u32,
    pub max_questions_per_run: usize,
    pub max_tasks_per_run: usize,
    pub question_default_timeout: Span,
    pub role_call_timeout: Span,
    pub plan_revision_limit: u32,
    pub memory_context_max_tokens: usize,
}

impl Default for RoleLimits {
    /// A threshold of 0.7, four questions, 24 tasks, ten and fifteen minutes, two
    /// revisions and 2500 tokens of memory.
    fn default() -> (r: Self)
        ensures
            r == RoleLimits::default_spec(),
    {
        RoleLimits {
            question_confidence_threshold: 0x3f33_3333,
            max_questions_per_run: 4,
            max_tasks_per_run: 24,
            question_default_timeout: Span::from_secs(600),
            role_call_timeout: Span::from_secs(900),
            plan_revision_limit: 2,
            memory_context_max_tokens: 2500,
        }
    }
}

/// The configuration that the limits come from.
#[derive(Debug, Clone, Copy, PartialEq, Eq, Structural)]
pub struct OrchestratorConfig {
    /// IEEE bit pattern of the threshold.
    pub question_confidence_threshold: u32,
    pub max_questions_per_run: u32,
    pub max_tasks_per_run: u32,
    pub question_default_timeout: Span,
    pub role_call_timeout: Span,
    pub plan_revision_limit: u32,
    /// From the memory section.
    pub context_max_tokens: u32,
}

impl RoleLimits {
    pub open spec fn default_spec() -> RoleLimits {
        RoleLimits {
            question_confidence_threshold: 0x3f33_3333,
            max_questions_per_run: 4,
            max_tasks_per_run: 24,
            question_default_timeout: Span { secs: 600, nanos: 0 },
            role_call_timeout: Span { secs: 900, nanos: 0 },
            plan_revision_limit: 2,
            memory_context_max_tokens: 2500,
        }
    }

    /// The configured limits.
    pub open spec fn of(config: OrchestratorConfig) -> RoleLimits {
        RoleLimits {
            question_confidence_threshold: config.question_confidence_threshold,
            max_questions_per_run: config.max_questions_per_run as usize,
            max_tasks_per_run: config.max_tasks_per_run as usize,
            question_default_timeout: config.question_default_timeout,
            role_call_timeout: config.role_call_timeout,
            plan_revision_limit: config.plan_revision_limit,
            memory_context_max_tokens: config.context_max_tokens as usize,
        }
    }

    /// The limits of a configuration.
    pub fn from_config(config: &OrchestratorConfig) -> (r: RoleLimits)
        ensures
            r == RoleLimits::of(*config),
    {
        RoleLimits {
            question_confidence_threshold: config.question_confidence_threshold,
            max_questions_per_run: config.max_questions_per_run as usize,
            max_tasks_per_run: config.max_tasks_per_run as usize,
            question_default_timeout: config.question_default_timeout,
            role_call_timeout: config.role_call_timeout,
            plan_revision_limit: config.plan_revision_limit,
            memory_context_max_tokens: config.context_max_tokens as usize,
        }
    }
}

// ---------------------------------------------------------------------------
// Repository facts
// ---------------------------------------------------------------------------
/// What is known about the repository that a run targets. Every field is data,
/// never an instruction.
#[derive(Debug, PartialEq, Eq)]
pub struct RepoFacts {
    pub name: String,
    pub root: String,
    pub vcs: RepoKind,
    pub base_branch: Option<String>,
    pub top_level: Vec<String>,
    pub languages: Vec<String>,
    pub checks: Vec<String>,
    pub notes: Vec<String>,
}

/// One line where there is a list: the label and the items with `sep` between.
pub open spec fn list_line(label: Seq<char>, items: Seq<String>, sep: Seq<char>) -> Seq<Seq<char>> {
    if items.len() == 0 {
        Seq::empty()
    } else {
        seq![label + join_of(views(items), sep)]
    }
}

/// One line where there is a value: the label and the value.
pub open spec fn value_line(label: Seq<char>, value: Option<Seq<char>>) -> Seq<Seq<char>> {
    match value {
        Some(v) => seq![label + v],
        None => Seq::empty(),
    }
}

/// The view of an optional string.
pub open spec fn opt_view(s: Option<String>) -> Option<Seq<char>> {
    match s {
        Some(t) => Some(t@),
        None => None,
    }
}

pub open spec fn vcs_name(kind: RepoKind) -> Seq<char> {
    match kind {
        RepoKind::Git => "git"@,
        RepoKind::Jj => "jj"@,
        RepoKind::Plain => "none"@,
    }
}

fn push_list(out: &mut Vec<String>, label: &str, items: &Vec<String>, sep: &str)
    ensures
        views(final(out)@) == views(old(out)@) + list_line(label@, items@, sep@),
{
    let ghost before = views(out@);
    if items.len() > 0 {
        let joined = join(items, sep);
        push_line(out, cat(label, joined.as_str()));
        assert(views(out@) =~= before + list_line(label@, items@, sep@));
    } else {
        assert(before + list_line(label@, items@, sep@) =~= before);
    }
}

fn push_value(out: &mut Vec<String>, label: &str, value: &Option<String>)
    ensures
        views(final(out)@) == views(old(out)@) + value_line(label@, opt_view(*value)),
{
    let ghost before = views(out@);
    match value {
        Some(v) => {
            push_line(out, cat(label, v.as_str()));
            assert(views(out@) =~= before + value_line(label@, opt_view(*value)));
        },
        None => {
            assert(before + value_line(label@, opt_view(*value)) =~= before);
        },
    }
}

impl RepoFacts {
    /// Nothing known but a name and a root.
    pub fn new(name: &str, root: &str) -> (r: RepoFacts)
        ensures
            r.name@ == name@,
            r.root@ == root@,
            r.vcs == RepoKind::Plain,
            r.base_branch is None,
            r.top_level@.len() == 0,
            r.languages@.len() == 0,
            r.checks@.len() == 0,
            r.notes@.len() == 0,
    {
        RepoFacts {
            name: name.to_owned(),
            root: root.to_owned(),
            vcs: RepoKind::Plain,
            base_branch: None,
            top_level: Vec::new(),
            languages: Vec::new(),
            checks: Vec::new(),
            notes: Vec::new(),
        }
    }

    /// The lines that describe the repository.
    pub open spec fn lines_spec(self) -> Seq<Seq<char>> {
        seq![
            "- name: "@ + self.name@,
            "- root: "@ + self.root@,
            "- vcs: "@ + vcs_name(self.vcs),
        ] + value_line("- base branch: "@, opt_view(self.base_branch)) + list_line(
            "- languages: "@,
            self.languages@,
            ", "@,
        ) + list_line("- top level: "@, self.top_level@, ", "@) + list_line(
            "- declared checks: "@,
            self.checks@,
            " && "@,
        ) + prefixed(views(self.notes@), "- "@)
    }

    pub open spec fn rendered(self) -> Seq<char> {
        join_of(self.lines_spec(), "\n"@)
    }

    /// The facts as a list.
    pub fn render(&self) -> (r: String)
        ensures
            r@ == self.rendered(),
    {
        let mut out: Vec<String> = Vec::new();
        push_line(&mut out, cat("- name: ", self.name.as_str()));
        push_line(&mut out, cat("- root: ", self.root.as_str()));
        let vcs = match self.vcs {
            RepoKind::Git => "git",
            RepoKind::Jj => "jj",
            RepoKind::Plain => "none",
        };
        push_line(&mut out, cat("- vcs: ", vcs));
        assert(views(out@) =~= seq![
            "- name: "@ + self.name@,
            "- root: "@ + self.root@,
            "- vcs: "@ + vcs_name(self.vcs),
        ]);
        push_value(&mut out, "- base branch: ", &self.base_branch);
        push_list(&mut out, "- languages: ", &self.languages, ", ");
        push_list(&mut out, "- top level: ", &self.top_level, ", ");
        push_list(&mut out, "- declared checks: ", &self.checks, " && ");
        push_prefixed(&mut out, &self.notes, "- ");
        join(&out, "\n")
    }
}

// ---------------------------------------------------------------------------
// Prior answers
// ---------------------------------------------------------------------------
/// A question that was answered already.
#[derive(Debug, PartialEq, Eq)]
pub struct PriorAnswer {
    pub question: String,
    /// What was chosen, joined for display.
    pub answer: String,
    pub answered_by: String,
}

/// The selected options with commas between; a free text follows after a dash,
/// or stands alone where nothing was selected.
pub open spec fn answer_shown(answer: Answer) -> Seq<char> {
    let chosen = join_of(views(answer.selected@), ", "@);
    match answer.free_text {
        Some(free) => if chosen.len() == 0 {
            free@
        } else {
            chosen + " — "@ + free@
        },
        None => chosen,
    }
}

impl PriorAnswer {
    /// The answer to a question.
    pub fn new(question: String, answer: &Answer) -> (r: PriorAnswer)
        ensures
            r.question == question,
            r.answer@ == answer_shown(*answer),
            r.answered_by == answer.answered_by,
    {
        let chosen = join(&answer.selected, ", ");
        let text = match &answer.free_text {
            Some(free) => if chosen.as_str().unicode_len() == 0 {
                free.clone()
            } else {
                cat3(chosen.as_str(), " — ", free.as_str())
            },
            None => chosen,
        };
        PriorAnswer { question, answer: text, answered_by: answer.answered_by.clone() }
    }

    pub open spec fn rendered(self) -> Seq<char> {
        "- "@ + self.question@ + " → "@ + self.answer@ + " (answered by "@ + self.answered_by@
            + ")"@
    }

    /// One line.
    pub fn render(&self) -> (r: String)
        ensures
            r@ == self.rendered(),
    {
        let mut s = cat("- ", self.question.as_str());
        s.append(" → ");
        s.append(self.answer.as_str());
        s.append(" (answered by ");
        s.append(self.answered_by.as_str());
        s.append(")");
        s
    }
}

// ---------------------------------------------------------------------------
// Budget hints
// ---------------------------------------------------------------------------
/// Budget and cost hints, so that a role can size its answer.
#[derive(Debug, Clone, Copy, PartialEq, Eq, Structural)]
pub struct BudgetHints {
    pub max_usd: Option<Amount>,
    pub max_tokens: Option<u64>,
    pub max_wall: Option<Span>,
    pub max_parallel: Option<u16>,
    /// Spent on the run so far.
    pub spent_usd: Option<Amount>,
}

impl Default for BudgetHints {
    fn default() -> (r: Self)
        ensures
            r == (BudgetHints {
                max_usd: None,
                max_tokens: None,
                max_wall: None,
                max_parallel: None,
                spent_usd: None,
            }),
    {
        BudgetHints {
            max_usd: None,
            max_tokens: None,
            max_wall: None,
            max_parallel: None,
            spent_usd: None,
        }
    }
}

pub open spec fn usd_text(a: Amount) -> Seq<char> {
    amount_text(a.mantissa as int, a.scale as nat)
}

impl BudgetHints {
    pub open spec fn wf(self) -> bool {
        (self.max_usd matches Some(a) ==> a.wf()) && (self.spent_usd matches Some(a) ==> a.wf())
    }

    /// The limits of a budget, as hints.
    pub open spec fn of(budget: Budget) -> BudgetHints {
        BudgetHints {
            max_usd: budget.max_usd,
            max_tokens: budget.max_tokens,
            max_wall: budget.max_wall,
            max_parallel: Some(budget.max_parallel),
            spent_usd: None,
        }
    }

    /// The hints of a budget.
    pub fn from_budget(budget: &Budget) -> (r: BudgetHints)
        ensures
            r == BudgetHints::of(*budget),
    {
        BudgetHints {
            max_usd: budget.max_usd,
            max_tokens: budget.max_tokens,
            max_wall: budget.max_wall,
            max_parallel: Some(budget.max_parallel),
            spent_usd: None,
        }
    }

    /// Adds what the run has spent.
    pub fn with_spent_usd(self, spent: Amount) -> (r: BudgetHints)
        ensures
            r == (BudgetHints { spent_usd: Some(spent), ..self }),
    {
        let mut r = self;
        r.spent_usd = Some(spent);
        r
    }

    pub open spec fn money_lines(self) -> Seq<Seq<char>> {
        match (self.max_usd, self.spent_usd) {
            (Some(max), Some(spent)) => seq![
                "- budget: "@ + usd_text(max) + " USD (spent so far: "@ + usd_text(spent) + ")"@,
            ],
            (Some(max), None) => seq!["- budget: "@ + usd_text(max) + " USD"@],
            (None, Some(spent)) => seq!["- spent so far: "@ + usd_text(spent) + " USD"@],
            (None, None) => Seq::empty(),
        }
    }

    pub open spec fn lines_spec(self) -> Seq<Seq<char>> {
        self.money_lines() + (match self.max_tokens {
            Some(n) => seq!["- token budget: "@ + decimal_of(n as nat)],
            None => Seq::empty(),
        }) + (match self.max_wall {
            Some(wall) => seq!["- wall-clock budget: "@ + duration_text(wall)],
            None => Seq::empty(),
        }) + (match self.max_parallel {
            Some(n) => seq![
                "- at most "@ + decimal_of(n as nat) + " task attempts run at once"@,
            ],
            None => Seq::empty(),
        })
    }

    pub open spec fn rendered(self) -> Seq<char> {
        join_of(self.lines_spec(), "\n"@)
    }

    /// The hints as a list; empty where there is none.
    pub fn render(&self) -> (r: String)
        requires
            self.wf(),
        ensures
            r@ == self.rendered(),
    {
        let mut out: Vec<String> = Vec::new();
        match (self.max_usd, self.spent_usd) {
            (Some(max), Some(spent)) => {
                let m = max.text();
                let s = spent.text();
                let mut line = cat3("- budget: ", m.as_str(), " USD (spent so far: ");
                line.append(s.as_str());
                line.append(")");
                push_line(&mut out, line);
            },
            (Some(max), None) => {
                let m = max.text();
                push_line(&mut out, cat3("- budget: ", m.as_str(), " USD"));
            },
            (None, Some(spent)) => {
                let s = spent.text();
                push_line(&mut out, cat3("- spent so far: ", s.as_str(), " USD"));
            },
            (None, None) => {},
        }
        assert(views(out@) =~= self.money_lines());
        let ghost before = views(out@);
        if let Some(n) = self.max_tokens {
            let d = decimal(n);
            push_line(&mut out, cat("- token budget: ", d.as_str()));
        }
        let ghost with_tokens = before + (match self.max_tokens {
            Some(n) => seq!["- token budget: "@ + decimal_of(n as nat)],
            None => Seq::empty(),
        });
        assert(views(out@) =~= with_tokens);
        if let Some(wall) = self.max_wall {
            let d = human_duration(wall);
            push_line(&mut out, cat("- wall-clock budget: ", d.as_str()));
        }
        let ghost with_wall = with_tokens + (match self.max_wall {
            Some(wall) => seq!["- wall-clock budget: "@ + duration_text(wall)],
            None => Seq::empty(),
        });
        assert(views(out@) =~= with_wall);
        if let Some(n) = self.max_parallel {
            let d = decimal(n as u64);
            push_line(&mut out, cat3("- at most ", d.as_str(), " task attempts run at once"));
        }
        assert(views(out@) =~= self.lines_spec());
        join(&out, "\n")
    }
}

/// The hours, minutes and seconds that are not zero; `0s` where all are.
pub open spec fn duration_parts(secs: nat) -> Seq<Seq<char>> {
    let h = secs / 3600;
    let m = (secs % 3600) / 60;
    let s = secs % 60;
    let hours = if h > 0 {
        seq![decimal_of(h) + "h"@]
    } else {
        Seq::empty()
    };
    let minutes = if m > 0 {
        seq![decimal_of(m) + "m"@]
    } else {
        Seq::empty()
    };
    let seconds = if s > 0 || (h == 0 && m == 0) {
        seq![decimal_of(s) + "s"@]
    } else {
        Seq::empty()
    };
    hours + minutes + seconds
}

pub open spec fn duration_text(d: Span) -> Seq<char> {
    join_of(duration_parts(d.secs as nat), " "@)
}

/// `1h 30m`, `15m`, `12s`, `0s`.
pub fn human_duration(d: Span) -> (r: String)
    ensures
        r@ == duration_text(d),
{
    let secs: u64 = d.secs;
    let h: u64 = secs / 3600;
    let m: u64 = (secs % 3600) / 60;
    let s: u64 = secs % 60;
    let mut parts: Vec<String> = Vec::new();
    if h > 0 {
        let n = decimal(h);
        push_line(&mut parts, cat(n.as_str(), "h"));
    }
    let ghost hours = if h > 0 {
        seq![decimal_of(h as nat) + "h"@]
    } else {
        Seq::empty()
    };
    assert(views(parts@) =~= hours);
    if m > 0 {
        let n = decimal(m);
        push_line(&mut parts, cat(n.as_str(), "m"));
    }
    let ghost minutes = if m > 0 {
        seq![decimal_of(m as nat) + "m"@]
    } else {
        Seq::empty()
    };
    assert(views(parts@) =~= hours + minutes);
    if s > 0 || parts.len() == 0 {
        let n = decimal(s);
        push_line(&mut parts, cat(n.as_str(), "s"));
    }
    assert(views(parts@) =~= duration_parts(secs as nat));
    join(&parts, " ")
}

/// What a duration's text says up to some place: the whole seconds of the parts
/// that are complete, and the number of the part that is not.
pub open spec fn seconds_read(text: Seq<char>) -> (nat, nat)
    decreases text.len(),
{
    if text.len() == 0 {
        (0, 0)
    } else {
        let (total, number) = seconds_read(text.drop_last());
        let c = text.last();
        if '0' <= c && c <= '9' {
            (total, number * 10 + (c as nat - '0' as nat) as nat)
        } else if c == 'h' {
            (total + number * 3600, 0)
        } else if c == 'm' {
            (total + number * 60, 0)
        } else if c == 's' {
            (total + number, 0)
        } else {
            (total, number)
        }
    }
}

proof fn lemma_read_decimal(before: Seq<char>, n: nat)
    requires
        seconds_read(before).1 == 0,
    ensures
        seconds_read(before + decimal_of(n)) == (seconds_read(before).0, n),
    decreases n,
{
    let s = before + decimal_of(n);
    if n < 10 {
        assert(s.drop_last() =~= before);
    } else {
        lemma_read_decimal(before, n / 10);
        assert(s.drop_last() =~= before + decimal_of(n / 10));
    }
}

proof fn lemma_read_part(before: Seq<char>, n: nat, unit: Seq<char>, factor: nat)
    requires
        seconds_read(before).1 == 0,
        unit == "h"@ && factor == 3600 || unit == "m"@ && factor == 60 || unit == "s"@ && factor
            == 1,
    ensures
        seconds_read(before + (decimal_of(n) + unit)) == (
            seconds_read(before).0 + n * factor,
            0nat,
        ),
{
    reveal_strlit("h");
    reveal_strlit("m");
    reveal_strlit("s");
    lemma_read_decimal(before, n);
    let s = before + (decimal_of(n) + unit);
    assert(s.drop_last() =~= before + decimal_of(n));
    assert(s.last() == unit[0]);
}

proof fn lemma_read_gap(before: Seq<char>)
    ensures
        seconds_read(before + " "@) == seconds_read(before),
{
    reveal_strlit(" ");
    assert((before + " "@).drop_last() =~= before);
}

/// A part read after others, or as the first.
proof fn lemma_read_join(parts: Seq<Seq<char>>, n: nat, unit: Seq<char>, factor: nat)
    requires
        seconds_read(join_of(parts, " "@)).1 == 0,
        unit == "h"@ && factor == 3600 || unit == "m"@ && factor == 60 || unit == "s"@ && factor
            == 1,
    ensures
        seconds_read(join_of(parts + seq![decimal_of(n) + unit], " "@)) == (
            seconds_read(join_of(parts, " "@)).0 + n * factor,
            0nat,
        ),
{
    let part = decimal_of(n) + unit;
    let before = join_of(parts, " "@);
    assert(parts + seq![part] =~= parts.push(part));
    crate::text::lemma_join_push(parts, " "@, part);
    if parts.len() == 0 {
        lemma_read_part(before, n, unit, factor);
        assert(before + part =~= part);
    } else {
        lemma_read_gap(before);
        lemma_read_part(before + " "@, n, unit, factor);
    }
}

/// The text of a duration gives its whole seconds back, so two durations have
/// the same text just where their whole seconds are equal.
pub proof fn law_durations_can_be_told_apart(a: Span, b: Span)
    ensures
        seconds_read(duration_text(a)) == (a.secs as nat, 0nat),
        duration_text(a) == duration_text(b) <==> a.secs == b.secs,
{
    lemma_duration_read(a);
    lemma_duration_read(b);
}

proof fn lemma_duration_read(d: Span)
    ensures
        seconds_read(duration_text(d)) == (d.secs as nat, 0nat),
{
    let secs = d.secs as nat;
    let h = secs / 3600;
    let m = (secs % 3600) / 60;
    let s = secs % 60;
    assert(secs == h * 3600 + m * 60 + s);
    let none = Seq::<Seq<char>>::empty();
    let hours = if h > 0 {
        seq![decimal_of(h) + "h"@]
    } else {
        none
    };
    let minutes = if m > 0 {
        seq![decimal_of(m) + "m"@]
    } else {
        none
    };
    assert(join_of(none, " "@) =~= Seq::<char>::empty());
    if h > 0 {
        lemma_read_join(none, h, "h"@, 3600);
        assert(none + hours =~= hours);
    }
    assert(seconds_read(join_of(hours, " "@)) == (h * 3600, 0nat));
    if m > 0 {
        lemma_read_join(hours, m, "m"@, 60);
    } else {
        assert(hours + minutes =~= hours);
    }
    assert(seconds_read(join_of(hours + minutes, " "@)) == (h * 3600 + m * 60, 0nat));
    if s > 0 || (h == 0 && m == 0) {
        lemma_read_join(hours + minutes, s, "s"@, 1);
    } else {
        assert(hours + minutes + none =~= hours + minutes);
    }
}

// ---------------------------------------------------------------------------
// Plan feedback
// ---------------------------------------------------------------------------
/// Who rejected a plan.
#[derive(Debug, Clone, Copy, PartialEq, Eq, Structural)]
pub enum FeedbackSource {
    Human,
    Validator,
}

impl FeedbackSource {
    pub open spec fn name(self) -> Seq<char> {
        match self {
            FeedbackSource::Human => "human"@,
            FeedbackSource::Validator => "validator"@,
        }
    }

    /// The lower-case name.
    pub fn as_str(self) -> (r: &'static str)
        ensures
            r@ == self.name(),
    {
        match self {
            FeedbackSource::Human => "human",
            FeedbackSource::Validator => "validator",
        }
    }
}

/// One round of the plan revision loop.
#[derive(Debug, PartialEq, Eq)]
pub struct PlanFeedback {
    /// One for the first rejection.
    pub revision: u32,
    pub source: FeedbackSource,
    /// What has to change.
    pub points: Vec<String>,
}

impl PlanFeedback {
    /// A human rejection.
    pub fn rejected(revision: u32, feedback: String) -> (r: PlanFeedback)
        ensures
            r.revision == revision,
            r.source == FeedbackSource::Human,
            r.points@ == seq![feedback],
    {
        let mut points: Vec<String> = Vec::new();
        points.push(feedback);
        assert(points@ =~= seq![feedback]);
        PlanFeedback { revision, source: FeedbackSource::Human, points }
    }

    /// The validator's errors, one point per error.
    pub fn validation(revision: u32, errors: Vec<String>) -> (r: PlanFeedback)
        ensures
            r == (PlanFeedback { revision, source: FeedbackSource::Validator, points: errors }),
    {
        PlanFeedback { revision, source: FeedbackSource::Validator, points: errors }
    }

    pub open spec fn headline(self) -> Seq<char> {
        "Revision "@ + decimal_of(self.revision as nat) + " — rejected by the "@
            + self.source.name() + ":"@
    }

    pub open spec fn rendered(self) -> Seq<char> {
        join_of(seq![self.headline()] + prefixed(views(self.points@), "- "@), "\n"@)
    }

    /// A headline and the points as a list.
    pub fn render(&self) -> (r: String)
        ensures
            r@ == self.rendered(),
    {
        let n = decimal(self.revision as u64);
        let mut head = cat3("Revision ", n.as_str(), " — rejected by the ");
        head.append(self.source.as_str());
        head.append(":");
        let mut out: Vec<String> = Vec::new();
        push_line(&mut out, head);
        assert(views(out@) =~= seq![self.headline()]);
        push_prefixed(&mut out, &self.points, "- ");
        join(&out, "\n")
    }
}

// ---------------------------------------------------------------------------
// Outcomes and artifacts
// ---------------------------------------------------------------------------
/// What one task of the run ended up doing.
#[derive(Debug, PartialEq, Eq)]
pub struct TaskOutcome {
    /// Plan-local id.
    pub id: String,
    pub title: String,
    pub kind: String,
    pub status: String,
    /// Branch or bookmark with the work, when there is one.
    pub branch: Option<String>,
    pub summary: String,
}

impl TaskOutcome {
    pub open spec fn branch_text(self) -> Seq<char> {
        match self.branch {
            Some(b) => "branch "@ + b@,
            None => "no branch"@,
        }
    }

    pub open spec fn rendered(self) -> Seq<char> {
        "- "@ + self.id@ + " ["@ + self.kind@ + "] "@ + self.title@ + " — "@ + self.status@ + " ("@
            + self.branch_text() + ")\n  "@ + self.summary@
    }

    /// Two lines: what the task was and how it ended, and its summary.
    pub fn render(&self) -> (r: String)
        ensures
            r@ == self.rendered(),
    {
        let branch = match &self.branch {
            Some(b) => cat("branch ", b.as_str()),
            None => "no branch".to_owned(),
        };
        let mut s = cat("- ", self.id.as_str());
        s.append(" [");
        s.append(self.kind.as_str());
        s.append("] ");
        s.append(self.title.as_str());
        s.append(" — ");
        s.append(self.status.as_str());
        s.append(" (");
        s.append(branch.as_str());
        s.append(")\n  ");
        s.append(self.summary.as_str());
        s
    }
}

/// How the run ended.
#[derive(Debug, PartialEq, Eq)]
pub struct RunOutcome {
    pub status: String,
    pub duration: Span,
    /// Usage rolled up from the tasks.
    pub usage: Usage,
    pub failure_reason: Option<String>,
}

impl RunOutcome {
    pub open spec fn lines_spec(self) -> Seq<Seq<char>> {
        seq![
            "- status: "@ + self.status@,
            "- duration: "@ + duration_text(self.duration),
            "- tokens: "@ + decimal_of(self.usage.input_tokens as nat) + " in / "@ + decimal_of(
                self.usage.output_tokens as nat,
            ) + " out"@,
        ] + (match self.usage.cost_usd {
            Some(cost) => seq!["- cost: "@ + usd_text(cost) + " USD"@],
            None => Seq::empty(),
        }) + value_line("- failure reason: "@, opt_view(self.failure_reason))
    }

    pub open spec fn rendered(self) -> Seq<char> {
        join_of(self.lines_spec(), "\n"@)
    }

    /// The outcome as a list.
    pub fn render(&self) -> (r: String)
        requires
            self.usage.wf(),
        ensures
            r@ == self.rendered(),
    {
        let mut out: Vec<String> = Vec::new();
        push_line(&mut out, cat("- status: ", self.status.as_str()));
        let d = human_duration(self.duration);
        push_line(&mut out, cat("- duration: ", d.as_str()));
        let i = decimal(self.usage.input_tokens);
        let o = decimal(self.usage.output_tokens);
        let mut tokens = cat3("- tokens: ", i.as_str(), " in / ");
        tokens.append(o.as_str());
        tokens.append(" out");
        push_line(&mut out, tokens);
        let ghost first = seq![
            "- status: "@ + self.status@,
            "- duration: "@ + duration_text(self.duration),
            "- tokens: "@ + decimal_of(self.usage.input_tokens as nat) + " in / "@ + decimal_of(
                self.usage.output_tokens as nat,
            ) + " out"@,
        ];
        assert(views(out@) =~= first);
        if let Some(cost) = self.usage.cost_usd {
            let c = cost.text();
            push_line(&mut out, cat3("- cost: ", c.as_str(), " USD"));
        }
        assert(views(out@) =~= first + (match self.usage.cost_usd {
            Some(cost) => seq!["- cost: "@ + usd_text(cost) + " USD"@],
            None => Seq::empty(),
        }));
        push_value(&mut out, "- failure reason: ", &self.failure_reason);
        join(&out, "\n")
    }
}

/// An artifact that the summariser must describe.
#[derive(Debug, PartialEq, Eq)]
pub struct ArtifactInput {
    /// Echoed back with the summary.
    pub id: String,
    pub kind: ArtifactKind,
    pub uri: String,
    pub description: String,
}

impl ArtifactInput {
    pub open spec fn rendered(self) -> Seq<char> {
        "- "@ + self.id@ + " ["@ + self.kind.name() + "] "@ + self.uri@ + " — "@
            + self.description@
    }

    /// One line.
    pub fn render(&self) -> (r: String)
        ensures
            r@ == self.rendered(),
    {
        let mut s = cat("- ", self.id.as_str());
        s.append(" [");
        s.append(self.kind.as_str());
        s.append("] ");
        s.append(self.uri.as_str());
        s.append(" — ");
        s.append(self.description.as_str());
        s
    }
}

/// Integration settings and state.
#[derive(Debug, PartialEq, Eq)]
pub struct IntegrationFacts {
    /// `pr`, `merge` or `none`.
    pub mode: String,
    pub base_branch: String,
    pub pr_per_task: bool,
    pub checks: Vec<String>,
    /// Known from a previous integration attempt.
    pub conflicts: Vec<String>,
}

impl Default for IntegrationFacts {
    fn default() -> (r: Self)
        ensures
            r.mode@.len() == 0,
            r.base_branch@.len() == 0,
            !r.pr_per_task,
            r.checks@.len() == 0,
            r.conflicts@.len() == 0,
    {
        IntegrationFacts {
            mode: String::new(),
            base_branch: String::new(),
            pr_per_task: false,
            checks: Vec::new(),
            conflicts: Vec::new(),
        }
    }
}

impl IntegrationFacts {
    pub open spec fn lines_spec(self) -> Seq<Seq<char>> {
        seq![
            "- mode: "@ + self.mode@,
            "- base branch: "@ + self.base_branch@,
            "- pull requests: "@ + (if self.pr_per_task {
                "one per succeeded task"@
            } else {
                "one for the whole run"@
            }),
            (if self.checks@.len() == 0 {
                "- declared checks: none"@
            } else {
                "- declared checks: "@ + join_of(views(self.checks@), " && "@)
            }),
        ] + prefixed(views(self.conflicts@), "- known conflict: "@)
    }

    pub open spec fn rendered(self) -> Seq<char> {
        join_of(self.lines_spec(), "\n"@)
    }

    /// The settings as a list.
    pub fn render(&self) -> (r: String)
        ensures
            r@ == self.rendered(),
    {
        let mut out: Vec<String> = Vec::new();
        push_line(&mut out, cat("- mode: ", self.mode.as_str()));
        push_line(&mut out, cat("- base branch: ", self.base_branch.as_str()));
        let pulls = if self.pr_per_task {
            "one per succeeded task"
        } else {
            "one for the whole run"
        };
        push_line(&mut out, cat("- pull requests: ", pulls));
        if self.checks.len() == 0 {
            push_line(&mut out, "- declared checks: none".to_owned());
        } else {
            let joined = join(&self.checks, " && ");
            push_line(&mut out, cat("- declared checks: ", joined.as_str()));
        }
        assert(views(out@) + prefixed(views(self.conflicts@), "- known conflict: "@)
            =~= self.lines_spec());
        push_prefixed(&mut out, &self.conflicts, "- known conflict: ");
        join(&out, "\n")
    }
}

// ---------------------------------------------------------------------------
// System context
// ---------------------------------------------------------------------------
/// One titled block of platform context before a role's system prompt.
#[derive(Debug, PartialEq, Eq)]
pub struct SystemContextSection {
    pub title: String,
    pub body: String,
}

/// The body says something and the platform did not block it.
pub open spec fn usable_body(body: Seq<char>) -> bool {
    !all_space(body) && !has_prefix(trim_start_of(body), BLOCKED_MARKER@)
}

fn is_usable(body: &str) -> (b: bool)
    ensures
        b == usable_body(body@),
{
    if is_blank(body) {
        return false;
    }
    let start = trim_start(body);
    !crate::text::starts_with(start.as_str(), BLOCKED_MARKER)
}

/// The sections whose body is usable, in order.
pub open spec fn usable_of(sections: Seq<SystemContextSection>) -> Seq<SystemContextSection> {
    sections.filter(|s: SystemContextSection| usable_body(s.body@))
}

impl SystemContextSection {
    /// A section, unless the body is blank or blocked.
    pub fn new(title: String, body: String) -> (r: Option<SystemContextSection>)
        ensures
            r == (if usable_body(body@) {
                Some(SystemContextSection { title, body })
            } else {
                None
            }),
    {
        if is_usable(body.as_str()) {
            Some(SystemContextSection { title, body })
        } else {
            None
        }
    }

    pub open spec fn rendered(self) -> Seq<char> {
        "## "@ + self.title@ + "\n\n"@ + trim_of(self.body@)
    }

    /// A heading and the body.
    pub fn render(&self) -> (r: String)
        ensures
            r@ == self.rendered(),
    {
        let mut s = cat3("## ", self.title.as_str(), "\n\n");
        let body = trim(self.body.as_str());
        s.append(body.as_str());
        s
    }
}

impl Clone for SystemContextSection {
    fn clone(&self) -> (r: Self)
        ensures
            r == *self,
    {
        SystemContextSection { title: self.title.clone(), body: self.body.clone() }
    }
}

/// A copy of a list of sections.
pub fn copy_sections(sections: &Vec<SystemContextSection>) -> (r: Vec<SystemContextSection>)
    ensures
        r@ == sections@,
{
    let mut out: Vec<SystemContextSection> = Vec::new();
    let mut i: usize = 0;
    while i < sections.len()
        invariant
            i <= sections@.len(),
            out@ == sections@.subrange(0, i as int),
        decreases sections@.len() - i,
    {
        out.push(sections[i].clone());
        i = i + 1;
        assert(out@ =~= sections@.subrange(0, i as int));
    }
    assert(sections@.subrange(0, sections@.len() as int) =~= sections@);
    out
}

/// Lets a platform put a briefing before every role prompt.
pub trait SystemContextProvider {
    /// The provider's name.
    spec fn key(&self) -> Seq<char>;

    spec fn provided(&self) -> Seq<SystemContextSection>;

    /// Name of the provider.
    fn name(&self) -> (r: &'static str)
        ensures
            r@ == self.key(),
    ;

    /// Sections in the order they must appear.
    fn sections(&self) -> (r: Vec<SystemContextSection>)
        ensures
            r@ == self.provided(),
    ;
}

/// A provider of a fixed list of sections.
#[derive(Debug, PartialEq, Eq)]
pub struct StaticSystemContext {
    pub name: &'static str,
    pub sections: Vec<SystemContextSection>,
}

/// The usable ones of the given titles and bodies, in order.
pub open spec fn usable_sections(given: Seq<(String, String)>) -> Seq<SystemContextSection>
    decreases given.len(),
{
    if given.len() == 0 {
        Seq::empty()
    } else {
        let before = usable_sections(given.drop_last());
        let (title, body) = given.last();
        if usable_body(body@) {
            before.push(SystemContextSection { title, body })
        } else {
            before
        }
    }
}

impl StaticSystemContext {
    /// The provider of the given titles and bodies, without blank and blocked ones.
    pub fn new(name: &'static str, sections: Vec<(String, String)>) -> (r: StaticSystemContext)
        ensures
            r.name == name,
            r.sections@ == usable_sections(sections@),
    {
        let mut out: Vec<SystemContextSection> = Vec::new();
        let mut i: usize = 0;
        while i < sections.len()
            invariant
                i <= sections@.len(),
                out@ == usable_sections(sections@.subrange(0, i as int)),
            decreases sections@.len() - i,
        {
            proof {
                let next = sections@.subrange(0, i + 1);
                assert(next.drop_last() =~= sections@.subrange(0, i as int));
                assert(next.last() == sections@[i as int]);
            }
            if let Some(section) = SystemContextSection::new(
                sections[i].0.clone(),
                sections[i].1.clone(),
            ) {
                out.push(section);
            }
            i = i + 1;
        }
        assert(sections@.subrange(0, sections@.len() as int) =~= sections@);
        StaticSystemContext { name, sections: out }
    }
}

impl SystemContextProvider for StaticSystemContext {
    open spec fn key(&self) -> Seq<char> {
        self.name@
    }

    open spec fn provided(&self) -> Seq<SystemContextSection> {
        self.sections@
    }

    fn name(&self) -> (r: &'static str) {
        self.name
    }

    fn sections(&self) -> (r: Vec<SystemContextSection>) {
        copy_sections(&self.sections)
    }
}

// ---------------------------------------------------------------------------
// Understanding and plan
// ---------------------------------------------------------------------------
/// A question that the planner proposes.
#[derive(Debug, PartialEq, Eq)]
pub struct ProposedQuestion {
    pub text: String,
    pub options: Vec<QuestionOption>,
    pub multi_select: bool,
    pub why_it_matters: String,
    /// IEEE bit pattern of a confidence from zero to one, which orders like the
    /// number.
    pub confidence_if_unasked: u32,
}

/// What the planner made of the goal.
#[derive(Debug, PartialEq, Eq)]
pub struct Understanding {
    pub objective: String,
    pub complexity: Complexity,
    pub success_criteria: Vec<String>,
    pub assumptions: Vec<String>,
    pub risks: Vec<String>,
    pub suggested_task_kinds: Vec<String>,
    pub context_refs: Vec<String>,
    pub proposed_questions: Vec<ProposedQuestion>,
}

/// One task of a plan.
#[derive(Debug, PartialEq, Eq)]
pub struct PlanTask {
    pub id: String,
    pub kind: String,
    pub title: String,
    pub acceptance_criteria: Vec<String>,
    /// The ids of the tasks that this one depends on.
    pub depends_on: Vec<String>,
}

/// A plan.
#[derive(Debug, PartialEq, Eq)]
pub struct Plan {
    pub rationale: String,
    pub tasks: Vec<PlanTask>,
}

pub open spec fn complexity_name(c: Complexity) -> Seq<char> {
    match c {
        Complexity::Low => "low"@,
        Complexity::Medium => "medium"@,
        Complexity::High => "high"@,
    }
}

/// A heading and the items as a list, where there are items.
pub open spec fn bullets(title: Seq<char>, items: Seq<String>) -> Seq<Seq<char>> {
    if items.len() == 0 {
        Seq::empty()
    } else {
        seq![title] + prefixed(views(items), "- "@)
    }
}

fn push_bullets(out: &mut Vec<String>, title: &str, items: &Vec<String>)
    ensures
        views(final(out)@) == views(old(out)@) + bullets(title@, items@),
{
    let ghost before = views(out@);
    if items.len() > 0 {
        push_line(out, title.to_owned());
        push_prefixed(out, items, "- ");
        assert(views(out@) =~= before + bullets(title@, items@));
    } else {
        assert(before + bullets(title@, items@) =~= before);
    }
}

impl Understanding {
    pub open spec fn lines_spec(self) -> Seq<Seq<char>> {
        seq![
            "Objective: "@ + self.objective@,
            "Complexity: "@ + complexity_name(self.complexity),
        ] + bullets("Success criteria:"@, self.success_criteria@) + bullets(
            "Assumptions:"@,
            self.assumptions@,
        ) + bullets("Risks:"@, self.risks@) + list_line(
            "Suggested task kinds: "@,
            self.suggested_task_kinds@,
            ", "@,
        ) + list_line("Context refs: "@, self.context_refs@, ", "@)
    }

    pub open spec fn rendered(self) -> Seq<char> {
        join_of(self.lines_spec(), "\n"@)
    }
}

/// The understanding as text.
pub fn render_understanding(u: &Understanding) -> (r: String)
    ensures
        r@ == u.rendered(),
{
    let mut out: Vec<String> = Vec::new();
    push_line(&mut out, cat("Objective: ", u.objective.as_str()));
    let complexity = match u.complexity {
        Complexity::Low => "low",
        Complexity::Medium => "medium",
        Complexity::High => "high",
    };
    push_line(&mut out, cat("Complexity: ", complexity));
    assert(views(out@) =~= seq![
        "Objective: "@ + u.objective@,
        "Complexity: "@ + complexity_name(u.complexity),
    ]);
    push_bullets(&mut out, "Success criteria:", &u.success_criteria);
    push_bullets(&mut out, "Assumptions:", &u.assumptions);
    push_bullets(&mut out, "Risks:", &u.risks);
    push_list(&mut out, "Suggested task kinds: ", &u.suggested_task_kinds, ", ");
    push_list(&mut out, "Context refs: ", &u.context_refs, ", ");
    join(&out, "\n")
}

impl PlanTask {
    pub open spec fn lines_spec(self) -> Seq<Seq<char>> {
        seq![
            "- "@ + self.id@ + " ["@ + self.kind@ + "] "@ + self.title@ + " — depends on: "@ + (
            if self.depends_on@.len() == 0 {
                "nothing"@
            } else {
                join_of(views(self.depends_on@), ", "@)
            }),
        ] + prefixed(views(self.acceptance_criteria@), "  - acceptance: "@)
    }
}

/// The lines of the tasks, one after the other.
pub open spec fn task_lines(tasks: Seq<PlanTask>) -> Seq<Seq<char>>
    decreases tasks.len(),
{
    if tasks.len() == 0 {
        Seq::empty()
    } else {
        task_lines(tasks.drop_last()) + tasks.last().lines_spec()
    }
}

impl Plan {
    pub open spec fn rendered(self) -> Seq<char> {
        join_of(seq!["Rationale: "@ + self.rationale@] + task_lines(self.tasks@), "\n"@)
    }
}

/// The plan as text.
pub fn render_plan(plan: &Plan) -> (r: String)
    ensures
        r@ == plan.rendered(),
{
    let mut out: Vec<String> = Vec::new();
    push_line(&mut out, cat("Rationale: ", plan.rationale.as_str()));
    let ghost head = seq!["Rationale: "@ + plan.rationale@];
    let mut i: usize = 0;
    assert(views(out@) =~= head + task_lines(plan.tasks@.subrange(0, 0)));
    while i < plan.tasks.len()
        invariant
            i <= plan.tasks@.len(),
            views(out@) == head + task_lines(plan.tasks@.subrange(0, i as int)),
        decreases plan.tasks@.len() - i,
    {
        let task = &plan.tasks[i];
        let mut line = cat3("- ", task.id.as_str(), " [");
        line.append(task.kind.as_str());
        line.append("] ");
        line.append(task.title.as_str());
        line.append(" — depends on: ");
        if task.depends_on.len() == 0 {
            line.append("nothing");
        } else {
            let deps = join(&task.depends_on, ", ");
            line.append(deps.as_str());
        }
        let ghost before = views(out@);
        push_line(&mut out, line);
        push_prefixed(&mut out, &task.acceptance_criteria, "  - acceptance: ");
        proof {
            let next = plan.tasks@.subrange(0, i + 1);
            assert(next.drop_last() =~= plan.tasks@.subrange(0, i as int));
            assert(next.last() == *task);
            assert(views(out@) =~= before + task.lines_spec());
            assert(views(out@) =~= head + task_lines(next));
        }
        i = i + 1;
    }
    assert(plan.tasks@.subrange(0, plan.tasks@.len() as int) =~= plan.tasks@);
    join(&out, "\n")
}

// ---------------------------------------------------------------------------
// RoleContext
// ---------------------------------------------------------------------------
/// Something that stands in a prompt as text.
pub trait Shown: Sized {
    spec fn shown(self) -> Seq<char>;

    /// The text.
    fn show(&self) -> (r: String)
        ensures
            r@ == self.shown(),
    ;
}

impl Shown for PriorAnswer {
    open spec fn shown(self) -> Seq<char> {
        self.rendered()
    }

    fn show(&self) -> (r: String) {
        self.render()
    }
}

impl Shown for PlanFeedback {
    open spec fn shown(self) -> Seq<char> {
        self.rendered()
    }

    fn show(&self) -> (r: String) {
        self.render()
    }
}

impl Shown for TaskOutcome {
    open spec fn shown(self) -> Seq<char> {
        self.rendered()
    }

    fn show(&self) -> (r: String) {
        self.render()
    }
}

impl Shown for ArtifactInput {
    open spec fn shown(self) -> Seq<char> {
        self.rendered()
    }

    fn show(&self) -> (r: String) {
        self.render()
    }
}

impl Shown for SystemContextSection {
    open spec fn shown(self) -> Seq<char> {
        self.rendered()
    }

    fn show(&self) -> (r: String) {
        self.render()
    }
}

/// The texts of the items, in order.
pub open spec fn shown_all<T: Shown>(items: Seq<T>) -> Seq<Seq<char>> {
    items.map_values(|t: T| t.shown())
}

/// The texts of the items, in order.
pub fn show_all<T: Shown>(items: &Vec<T>) -> (r: Vec<String>)
    ensures
        views(r@) == shown_all(items@),
{
    let mut out: Vec<String> = Vec::new();
    let mut i: usize = 0;
    assert(views(out@) =~= shown_all(items@).subrange(0, 0));
    while i < items.len()
        invariant
            i <= items@.len(),
            views(out@) == shown_all(items@).subrange(0, i as int),
        decreases items@.len() - i,
    {
        push_line(&mut out, items[i].show());
        i = i + 1;
        assert(views(out@) =~= shown_all(items@).subrange(0, i as int));
    }
    assert(shown_all(items@).subrange(0, items@.len() as int) =~= shown_all(items@));
    out
}

/// The value of a template variable: a text, a text that may be missing, or
/// lines.
#[derive(Debug, PartialEq, Eq)]
pub enum VarValue {
    Text(String),
    Optional(Option<String>),
    Lines(Vec<String>),
}

/// One template variable.
#[derive(Debug, PartialEq, Eq)]
pub struct Var {
    pub name: &'static str,
    pub value: VarValue,
}

/// The view of a template variable's value.
pub enum ValueView {
    Text(Seq<char>),
    Optional(Option<Seq<char>>),
    Lines(Seq<Seq<char>>),
}

impl View for Var {
    type V = (Seq<char>, ValueView);

    open spec fn view(&self) -> (Seq<char>, ValueView) {
        (
            self.name@,
            match self.value {
                VarValue::Text(s) => ValueView::Text(s@),
                VarValue::Optional(s) => ValueView::Optional(opt_view(s)),
                VarValue::Lines(l) => ValueView::Lines(views(l@)),
            },
        )
    }
}

/// The views of the variables.
pub open spec fn var_views(vars: Seq<Var>) -> Seq<(Seq<char>, ValueView)> {
    vars.map_values(|v: Var| v@)
}

/// Adds a variable that is a text.
pub fn set(vars: &mut Vec<Var>, name: &'static str, text: String)
    ensures
        var_views(final(vars)@) == var_views(old(vars)@).push((name@, ValueView::Text(text@))),
{
    let ghost before = var_views(vars@);
    vars.push(Var { name, value: VarValue::Text(text) });
    assert(var_views(vars@) =~= before.push((name@, ValueView::Text(text@))));
}

fn set_opt(vars: &mut Vec<Var>, name: &'static str, text: Option<String>)
    ensures
        var_views(final(vars)@) == var_views(old(vars)@).push(
            (name@, ValueView::Optional(opt_view(text))),
        ),
{
    let ghost before = var_views(vars@);
    vars.push(Var { name, value: VarValue::Optional(text) });
    assert(var_views(vars@) =~= before.push((name@, ValueView::Optional(opt_view(text)))));
}

/// Adds a variable that is a list.
pub fn set_lines(vars: &mut Vec<Var>, name: &'static str, text: Vec<String>)
    ensures
        var_views(final(vars)@) == var_views(old(vars)@).push(
            (name@, ValueView::Lines(views(text@))),
        ),
{
    let ghost before = var_views(vars@);
    vars.push(Var { name, value: VarValue::Lines(text) });
    assert(var_views(vars@) =~= before.push((name@, ValueView::Lines(views(text@)))));
}

/// What the prompts need to know of the rules for plans: the largest number of
/// proposed questions, the confidence threshold with two decimals, and the kinds
/// that a plan may use.
#[derive(Debug, PartialEq, Eq)]
pub struct PlanRules {
    pub max_proposed_questions: usize,
    pub confidence_threshold: String,
    pub task_kinds: Vec<String>,
}

/// Everything a role may need to build its prompt.
#[derive(Debug, PartialEq, Eq)]
pub struct RoleContext {
    pub goal: String,
    pub run_mode: Option<RunMode>,
    pub repo: RepoFacts,
    pub prior_answers: Vec<PriorAnswer>,
    pub memory: Option<MemoryBlock>,
    /// Criteria that the whole run must satisfy.
    pub acceptance_criteria: Vec<String>,
    pub budget: BudgetHints,
    /// Rejections of previous plans, oldest first.
    pub plan_feedback: Vec<PlanFeedback>,
    pub understanding: Option<Understanding>,
    pub plan: Option<Plan>,
    pub tasks: Vec<TaskOutcome>,
    pub artifacts: Vec<ArtifactInput>,
    pub integration: IntegrationFacts,
    pub run_outcome: Option<RunOutcome>,
    pub limits: RoleLimits,
    /// Platform briefing, in order.
    pub system_context: Vec<SystemContextSection>,
}

/// The texts as one, an empty line between neighbours, cut into lines.
pub open spec fn as_lines(texts: Seq<Seq<char>>) -> Seq<Seq<char>> {
    lines_of(join_of(texts, "\n\n"@))
}

impl RoleContext {
    /// The amounts in the context are well formed.
    pub open spec fn wf(self) -> bool {
        self.budget.wf() && (self.run_outcome matches Some(o) ==> o.usage.wf())
    }

    /// Nothing is filled in but the goal and the default limits.
    pub open spec fn is_plain(self) -> bool {
        &&& self.run_mode is None
        &&& self.repo.name@.len() == 0
        &&& self.repo.root@.len() == 0
        &&& self.repo.vcs == RepoKind::Plain
        &&& self.repo.base_branch is None
        &&& self.repo.top_level@.len() == 0
        &&& self.repo.languages@.len() == 0
        &&& self.repo.checks@.len() == 0
        &&& self.repo.notes@.len() == 0
        &&& self.prior_answers@.len() == 0
        &&& self.memory is None
        &&& self.acceptance_criteria@.len() == 0
        &&& self.budget == (BudgetHints {
            max_usd: None,
            max_tokens: None,
            max_wall: None,
            max_parallel: None,
            spent_usd: None,
        })
        &&& self.plan_feedback@.len() == 0
        &&& self.understanding is None
        &&& self.plan is None
        &&& self.tasks@.len() == 0
        &&& self.artifacts@.len() == 0
        &&& self.integration.mode@.len() == 0
        &&& self.integration.base_branch@.len() == 0
        &&& !self.integration.pr_per_task
        &&& self.integration.checks@.len() == 0
        &&& self.integration.conflicts@.len() == 0
        &&& self.run_outcome is None
        &&& self.system_context@.len() == 0
    }

    /// A context for `goal` with default limits and nothing else.
    pub fn new(goal: String) -> (r: RoleContext)
        ensures
            r.goal == goal,
            r.is_plain(),
            r.wf(),
            r.limits == RoleLimits::default_spec(),
    {
        RoleContext {
            goal,
            run_mode: None,
            repo: RepoFacts {
                name: String::new(),
                root: String::new(),
                vcs: RepoKind::Plain,
                base_branch: None,
                top_level: Vec::new(),
                languages: Vec::new(),
                checks: Vec::new(),
                notes: Vec::new(),
            },
            prior_answers: Vec::new(),
            memory: None,
            acceptance_criteria: Vec::new(),
            budget: BudgetHints::default(),
            plan_feedback: Vec::new(),
            understanding: None,
            plan: None,
            tasks: Vec::new(),
            artifacts: Vec::new(),
            integration: IntegrationFacts::default(),
            run_outcome: None,
            limits: RoleLimits::default(),
            system_context: Vec::new(),
        }
    }

    /// Sets the run mode.
    pub fn with_run_mode(self, mode: RunMode) -> (r: RoleContext)
        ensures
            r == (RoleContext { run_mode: Some(mode), ..self }),
    {
        let mut r = self;
        r.run_mode = Some(mode);
        r
    }

    /// Sets the repository facts.
    pub fn with_repo(self, repo: RepoFacts) -> (r: RoleContext)
        ensures
            r == (RoleContext { repo, ..self }),
    {
        let mut r = self;
        r.repo = repo;
        r
    }

    /// Sets the limits.
    pub fn with_limits(self, limits: RoleLimits) -> (r: RoleContext)
        ensures
            r == (RoleContext { limits, ..self }),
    {
        let mut r = self;
        r.limits = limits;
        r
    }

    /// Sets the answers already given.
    pub fn with_prior_answers(self, answers: Vec<PriorAnswer>) -> (r: RoleContext)
        ensures
            r == (RoleContext { prior_answers: answers, ..self }),
    {
        let mut r = self;
        r.prior_answers = answers;
        r
    }

    /// Sets the memory block.
    pub fn with_memory(self, memory: MemoryBlock) -> (r: RoleContext)
        ensures
            r == (RoleContext { memory: Some(memory), ..self }),
    {
        let mut r = self;
        r.memory = Some(memory);
        r
    }

    /// Sets the acceptance criteria of the run.
    pub fn with_acceptance_criteria(self, criteria: Vec<String>) -> (r: RoleContext)
        ensures
            r == (RoleContext { acceptance_criteria: criteria, ..self }),
    {
        let mut r = self;
        r.acceptance_criteria = criteria;
        r
    }

    /// Sets the budget hints.
    pub fn with_budget(self, budget: BudgetHints) -> (r: RoleContext)
        ensures
            r == (RoleContext { budget, ..self }),
    {
        let mut r = self;
        r.budget = budget;
        r
    }

    /// Sets the plan revision feedback.
    pub fn with_plan_feedback(self, feedback: Vec<PlanFeedback>) -> (r: RoleContext)
        ensures
            r == (RoleContext { plan_feedback: feedback, ..self }),
    {
        let mut r = self;
        r.plan_feedback = feedback;
        r
    }

    /// Sets the understanding.
    pub fn with_understanding(self, understanding: Understanding) -> (r: RoleContext)
        ensures
            r == (RoleContext { understanding: Some(understanding), ..self }),
    {
        let mut r = self;
        r.understanding = Some(understanding);
        r
    }

    /// Sets the plan.
    pub fn with_plan(self, plan: Plan) -> (r: RoleContext)
        ensures
            r == (RoleContext { plan: Some(plan), ..self }),
    {
        let mut r = self;
        r.plan = Some(plan);
        r
    }

    /// Sets the task outcomes.
    pub fn with_tasks(self, tasks: Vec<TaskOutcome>) -> (r: RoleContext)
        ensures
            r == (RoleContext { tasks, ..self }),
    {
        let mut r = self;
        r.tasks = tasks;
        r
    }

    /// Sets the artifacts to summarise.
    pub fn with_artifacts(self, artifacts: Vec<ArtifactInput>) -> (r: RoleContext)
        ensures
            r == (RoleContext { artifacts, ..self }),
    {
        let mut r = self;
        r.artifacts = artifacts;
        r
    }

    /// Sets the integration settings.
    pub fn with_integration(self, integration: IntegrationFacts) -> (r: RoleContext)
        ensures
            r == (RoleContext { integration, ..self }),
    {
        let mut r = self;
        r.integration = integration;
        r
    }

    /// Sets the run outcome.
    pub fn with_run_outcome(self, outcome: RunOutcome) -> (r: RoleContext)
        ensures
            r == (RoleContext { run_outcome: Some(outcome), ..self }),
    {
        let mut r = self;
        r.run_outcome = Some(outcome);
        r
    }

    /// Appends the provider's sections; blank and blocked ones are skipped.
    pub fn with_system_context<P: SystemContextProvider>(self, provider: &P) -> (r: RoleContext)
        ensures
            r.system_context@ == self.system_context@ + usable_of(provider.provided()),
            r == (RoleContext { system_context: r.system_context, ..self }),
    {
        let mut r = self;
        let sections = provider.sections();
        let mut all = r.system_context;
        let ghost before = all@;
        let mut i: usize = 0;
        assert(usable_of(sections@.subrange(0, 0)) =~= Seq::<SystemContextSection>::empty());
        assert(all@ =~= before + usable_of(sections@.subrange(0, 0)));
        while i < sections.len()
            invariant
                i <= sections@.len(),
                all@ == before + usable_of(sections@.subrange(0, i as int)),
            decreases sections@.len() - i,
        {
            proof {
                let next = sections@.subrange(0, i + 1);
                assert(next.drop_last() =~= sections@.subrange(0, i as int));
                assert(next.last() == sections@[i as int]);
                reveal(Seq::filter);
            }
            if is_usable(sections[i].body.as_str()) {
                all.push(sections[i].clone());
            }
            i = i + 1;
            assert(all@ =~= before + usable_of(sections@.subrange(0, i as int)));
        }
        assert(sections@.subrange(0, sections@.len() as int) =~= sections@);
        r.system_context = all;
        r
    }

    pub open spec fn mode_name_spec(self) -> Seq<char> {
        match self.run_mode {
            Some(RunMode::Headless) => "headless"@,
            Some(RunMode::Kohral { .. }) => "kohral"@,
            _ => "interactive"@,
        }
    }

    /// The run mode's name (`interactive` where none is set).
    pub fn run_mode_name(&self) -> (r: &'static str)
        ensures
            r@ == self.mode_name_spec(),
    {
        match &self.run_mode {
            Some(RunMode::Headless) => "headless",
            Some(RunMode::Kohral { .. }) => "kohral",
            _ => "interactive",
        }
    }

    pub open spec fn mode_note_spec(self) -> Seq<char> {
        match self.run_mode {
            Some(RunMode::Headless) =>
                "no human is watching, so an unanswered question falls back to its recommended option after a timeout and the plan is approved automatically."@,
            Some(RunMode::Kohral { .. }) =>
                "one autonomous turn on the Kohral platform; nobody can be asked anything, so a question without a recommended option must become an assumption instead."@,
            _ =>
                "a human is available, so questions block the run and the plan needs approval."@,
        }
    }

    /// What the mode implies for questions and plan approval, in one sentence.
    pub fn run_mode_note(&self) -> (r: &'static str)
        ensures
            r@ == self.mode_note_spec(),
    {
        match &self.run_mode {
            Some(RunMode::Headless) =>
                "no human is watching, so an unanswered question falls back to its recommended option after a timeout and the plan is approved automatically.",
            Some(RunMode::Kohral { .. }) =>
                "one autonomous turn on the Kohral platform; nobody can be asked anything, so a question without a recommended option must become an assumption instead.",
            _ =>
                "a human is available, so questions block the run and the plan needs approval.",
        }
    }

    /// The first variables: texts that are always there.
    pub open spec fn plain_vars(self, rules: PlanRules) -> Seq<(Seq<char>, ValueView)> {
        seq![
            ("goal"@, ValueView::Text(trim_of(self.goal@))),
            ("repo"@, ValueView::Text(self.repo.rendered())),
            ("run_mode"@, ValueView::Text(self.mode_name_spec())),
            ("run_mode_note"@, ValueView::Text(self.mode_note_spec())),
            ("assumption_prefix"@, ValueView::Text(ASSUMPTION_PREFIX@)),
            (
                "max_questions_per_run"@,
                ValueView::Text(decimal_of(self.limits.max_questions_per_run as nat)),
            ),
            (
                "max_tasks_per_run"@,
                ValueView::Text(decimal_of(self.limits.max_tasks_per_run as nat)),
            ),
            (
                "max_proposed_questions"@,
                ValueView::Text(decimal_of(rules.max_proposed_questions as nat)),
            ),
            ("question_confidence_threshold"@, ValueView::Text(rules.confidence_threshold@)),
            ("task_kinds"@, ValueView::Text(join_of(views(rules.task_kinds@), ", "@))),
            ("integration_mode"@, ValueView::Text(self.integration.mode@)),
            ("base_branch"@, ValueView::Text(self.integration.base_branch@)),
        ]
    }

    /// The remaining variables: texts that may be missing, and lists.
    pub open spec fn section_vars(self) -> Seq<(Seq<char>, ValueView)> {
        seq![
            (
                "memory"@,
                ValueView::Optional(
                    match self.memory {
                        Some(m) => Some(m@.text),
                        None => None,
                    },
                ),
            ),
            ("prior_answers"@, ValueView::Lines(shown_all(self.prior_answers@))),
            (
                "acceptance_criteria"@,
                ValueView::Lines(prefixed(views(self.acceptance_criteria@), "- "@)),
            ),
            ("budget"@, ValueView::Optional(Some(self.budget.rendered()))),
            ("plan_feedback"@, ValueView::Lines(as_lines(shown_all(self.plan_feedback@)))),
            (
                "understanding"@,
                ValueView::Optional(
                    match self.understanding {
                        Some(u) => Some(u.rendered()),
                        None => None,
                    },
                ),
            ),
            (
                "plan"@,
                ValueView::Optional(
                    match self.plan {
                        Some(p) => Some(p.rendered()),
                        None => None,
                    },
                ),
            ),
            ("tasks"@, ValueView::Lines(shown_all(self.tasks@))),
            ("artifacts"@, ValueView::Lines(shown_all(self.artifacts@))),
            ("integration"@, ValueView::Optional(Some(self.integration.rendered()))),
            (
                "run_outcome"@,
                ValueView::Optional(
                    match self.run_outcome {
                        Some(o) => Some(o.rendered()),
                        None => None,
                    },
                ),
            ),
            ("system_context"@, ValueView::Lines(as_lines(shown_all(self.system_context@)))),
        ]
    }

    fn set_plain(&self, rules: &PlanRules) -> (r: Vec<Var>)
        ensures
            var_views(r@) == self.plain_vars(*rules),
    {
        let mut vars: Vec<Var> = Vec::new();
        set(&mut vars, "goal", trim(self.goal.as_str()));
        set(&mut vars, "repo", self.repo.render());
        set(&mut vars, "run_mode", self.run_mode_name().to_owned());
        set(&mut vars, "run_mode_note", self.run_mode_note().to_owned());
        set(&mut vars, "assumption_prefix", ASSUMPTION_PREFIX.to_owned());
        set(
            &mut vars,
            "max_questions_per_run",
            decimal(self.limits.max_questions_per_run as u64),
        );
        set(&mut vars, "max_tasks_per_run", decimal(self.limits.max_tasks_per_run as u64));
        set(&mut vars, "max_proposed_questions", decimal(rules.max_proposed_questions as u64));
        set(&mut vars, "question_confidence_threshold", rules.confidence_threshold.clone());
        set(&mut vars, "task_kinds", join(&rules.task_kinds, ", "));
        set(&mut vars, "integration_mode", self.integration.mode.clone());
        set(&mut vars, "base_branch", self.integration.base_branch.clone());
        assert(var_views(vars@) =~= self.plain_vars(*rules));
        vars
    }

    /// The variables that every prompt template may use, in order.
    pub fn vars(&self, rules: &PlanRules) -> (r: Vec<Var>)
        requires
            self.wf(),
        ensures
            var_views(r@) == self.plain_vars(*rules) + self.section_vars(),
    {
        let mut vars = self.set_plain(rules);
        let ghost plain = self.plain_vars(*rules);
        let memory = match &self.memory {
            Some(m) => Some(m.text().to_owned()),
            None => None,
        };
        set_opt(&mut vars, "memory", memory);
        set_lines(&mut vars, "prior_answers", show_all(&self.prior_answers));
        let mut criteria: Vec<String> = Vec::new();
        push_prefixed(&mut criteria, &self.acceptance_criteria, "- ");
        assert(views(criteria@) =~= prefixed(views(self.acceptance_criteria@), "- "@));
        set_lines(&mut vars, "acceptance_criteria", criteria);
        set_opt(&mut vars, "budget", Some(self.budget.render()));
        let feedback = show_all(&self.plan_feedback);
        let feedback = join(&feedback, "\n\n");
        set_lines(&mut vars, "plan_feedback", lines(feedback.as_str()));
        let understanding = match &self.understanding {
            Some(u) => Some(render_understanding(u)),
            None => None,
        };
        set_opt(&mut vars, "understanding", understanding);
        let plan_text = match &self.plan {
            Some(p) => Some(render_plan(p)),
            None => None,
        };
        set_opt(&mut vars, "plan", plan_text);
        set_lines(&mut vars, "tasks", show_all(&self.tasks));
        set_lines(&mut vars, "artifacts", show_all(&self.artifacts));
        set_opt(&mut vars, "integration", Some(self.integration.render()));
        let outcome = match &self.run_outcome {
            Some(o) => Some(o.render()),
            None => None,
        };
        set_opt(&mut vars, "run_outcome", outcome);
        let sections = show_all(&self.system_context);
        let sections = join(&sections, "\n\n");
        set_lines(&mut vars, "system_context", lines(sections.as_str()));
        assert(var_views(vars@) =~= plain + self.section_vars());
        vars
    }
}

// ---------------------------------------------------------------------------
// Laws
// ---------------------------------------------------------------------------
/// Each limit is the configured one.
pub proof fn law_limits_are_the_configured_ones(config: OrchestratorConfig)
    ensures
        RoleLimits::of(config).question_confidence_threshold
            == config.question_confidence_threshold,
        RoleLimits::of(config).max_questions_per_run == config.max_questions_per_run,
        RoleLimits::of(config).max_tasks_per_run == config.max_tasks_per_run,
        RoleLimits::of(config).question_default_timeout == config.question_default_timeout,
        RoleLimits::of(config).role_call_timeout == config.role_call_timeout,
        RoleLimits::of(config).plan_revision_limit == config.plan_revision_limit,
        RoleLimits::of(config).memory_context_max_tokens == config.context_max_tokens,
{
}

/// A budget is hinted at limit by limit; what is spent is not part of it.
pub proof fn law_hints_are_the_budgets_limits(budget: Budget)
    ensures
        BudgetHints::of(budget).max_usd == budget.max_usd,
        BudgetHints::of(budget).max_tokens == budget.max_tokens,
        BudgetHints::of(budget).max_wall == budget.max_wall,
        BudgetHints::of(budget).max_parallel == Some(budget.max_parallel),
        BudgetHints::of(budget).spent_usd is None,
{
}

/// The money of a budget stands in one line, which tells the limit and what is
/// spent as far as they are known; where neither is, there is none.
pub proof fn law_money_stands_in_one_line(hints: BudgetHints)
    ensures
        hints.max_usd is None && hints.spent_usd is None <==> hints.money_lines().len() == 0,
        hints.money_lines().len() <= 1,
        hints.max_usd matches Some(max) ==> (hints.spent_usd is None ==> hints.money_lines()
            == seq!["- budget: "@ + usd_text(max) + " USD"@]),
        hints.spent_usd matches Some(spent) ==> (hints.max_usd is None ==> hints.money_lines()
            == seq!["- spent so far: "@ + usd_text(spent) + " USD"@]),
        hints.max_usd matches Some(max) ==> (hints.spent_usd matches Some(spent)
            ==> hints.money_lines() == seq![
            "- budget: "@ + usd_text(max) + " USD (spent so far: "@ + usd_text(spent) + ")"@,
        ]),
{
}

/// Hints show each limit that there is, in one line each, and no others.
pub proof fn law_every_hint_has_its_line(hints: BudgetHints)
    ensures
        hints.lines_spec().len() == hints.money_lines().len() + (if hints.max_tokens is Some {
            1int
        } else {
            0
        }) + (if hints.max_wall is Some {
            1int
        } else {
            0
        }) + (if hints.max_parallel is Some {
            1int
        } else {
            0
        }),
        hints.max_tokens matches Some(n) ==> hints.lines_spec()[hints.money_lines().len() as int]
            == "- token budget: "@ + decimal_of(n as nat),
        hints.max_parallel matches Some(n) ==> hints.lines_spec().last() == "- at most "@
            + decimal_of(n as nat) + " task attempts run at once"@,
        hints.max_parallel is None ==> (hints.max_wall matches Some(wall)
            ==> hints.lines_spec().last() == "- wall-clock budget: "@ + duration_text(wall)),
{
}

/// An answer is shown by its options, by its free text, or by both with a dash
/// between.
pub proof fn law_answers_show_options_and_text(answer: Answer)
    ensures
        answer.free_text is None ==> answer_shown(answer) == join_of(views(answer.selected@), ", "@),
        answer.free_text matches Some(free) ==> (answer.selected@.len() == 0 ==> answer_shown(
            answer,
        ) == free@),
        answer.free_text matches Some(free) ==> (join_of(views(answer.selected@), ", "@).len() > 0
            ==> answer_shown(answer) == join_of(views(answer.selected@), ", "@) + " — "@ + free@),
{
    if answer.selected@.len() == 0 {
        assert(views(answer.selected@).len() == 0);
    }
}

/// A section of the platform is used exactly when it says something and is not
/// marked as blocked.
pub proof fn law_blocked_sections_are_left_out(body: Seq<char>)
    ensures
        all_space(body) ==> !usable_body(body),
        !all_space(body) && !has_prefix(trim_start_of(body), "[BLOCKED"@) ==> usable_body(body),
        has_prefix(trim_start_of(body), "[BLOCKED"@) ==> !usable_body(body),
{
}

/// The usable sections are kept, in order, and no others.
pub proof fn law_usable_sections_are_kept(
    sections: Seq<SystemContextSection>,
    section: SystemContextSection,
    given: Seq<(String, String)>,
    next: (String, String),
)
    ensures
        usable_body(section.body@) ==> usable_of(sections.push(section)) == usable_of(
            sections,
        ).push(section),
        !usable_body(section.body@) ==> usable_of(sections.push(section)) == usable_of(sections),
        usable_body(next.1@) ==> usable_sections(given.push(next)) == usable_sections(given).push(
            SystemContextSection { title: next.0, body: next.1 },
        ),
        !usable_body(next.1@) ==> usable_sections(given.push(next)) == usable_sections(given),
        usable_sections(Seq::empty()).len() == 0,
{
    reveal(Seq::filter);
    assert(sections.push(section).drop_last() =~= sections);
    assert(given.push(next).drop_last() =~= given);
}

/// Kinds of repositories, complexities, rejections and modes go by their own
/// names; a run without a mode is interactive.
pub proof fn law_names_in_prompts(
    kind: RepoKind,
    complexity: Complexity,
    source: FeedbackSource,
    ctx: RoleContext,
)
    ensures
        kind == RepoKind::Git ==> vcs_name(kind) == "git"@,
        kind == RepoKind::Jj ==> vcs_name(kind) == "jj"@,
        kind == RepoKind::Plain ==> vcs_name(kind) == "none"@,
        complexity == Complexity::Low ==> complexity_name(complexity) == "low"@,
        complexity == Complexity::Medium ==> complexity_name(complexity) == "medium"@,
        complexity == Complexity::High ==> complexity_name(complexity) == "high"@,
        source == FeedbackSource::Human ==> source.name() == "human"@,
        source == FeedbackSource::Validator ==> source.name() == "validator"@,
        ctx.run_mode is None ==> ctx.mode_name_spec() == "interactive"@,
        ctx.run_mode matches Some(mode) ==> (mode is Interactive ==> ctx.mode_name_spec()
            == "interactive"@),
        ctx.run_mode matches Some(mode) ==> (mode is Headless ==> ctx.mode_name_spec()
            == "headless"@),
        ctx.run_mode matches Some(mode) ==> (mode is Kohral ==> ctx.mode_name_spec()
            == "kohral"@),
{
}

/// What the prompt says of the mode is what the mode means: only where it is
/// interactive, or none is set, is a human there to ask.
pub proof fn law_notes_tell_what_a_mode_means(ctx: RoleContext)
    ensures
        ctx.run_mode is None ==> ctx.mode_note_spec()
            == "a human is available, so questions block the run and the plan needs approval."@,
        ctx.run_mode matches Some(mode) ==> (mode is Interactive ==> ctx.mode_note_spec()
            == "a human is available, so questions block the run and the plan needs approval."@),
        ctx.run_mode matches Some(mode) ==> (mode is Headless ==> ctx.mode_note_spec()
            == "no human is watching, so an unanswered question falls back to its recommended option after a timeout and the plan is approved automatically."@),
        ctx.run_mode matches Some(mode) ==> (mode is Kohral ==> ctx.mode_note_spec()
            == "one autonomous turn on the Kohral platform; nobody can be asked anything, so a question without a recommended option must become an assumption instead."@),
{
}

/// A repository is described by its name, its place and its kind first, then by
/// what else is known, and last by one line for each note.
pub proof fn law_a_repository_is_described(repo: RepoFacts)
    ensures
        repo.lines_spec()[0] == "- name: "@ + repo.name@,
        repo.lines_spec()[1] == "- root: "@ + repo.root@,
        repo.lines_spec()[2] == "- vcs: "@ + vcs_name(repo.vcs),
        repo.base_branch matches Some(branch) ==> repo.lines_spec()[3] == "- base branch: "@
            + branch@,
        repo.lines_spec().len() == 3 + (if repo.base_branch is Some {
            1int
        } else {
            0
        }) + (if repo.languages@.len() > 0 {
            1int
        } else {
            0
        }) + (if repo.top_level@.len() > 0 {
            1int
        } else {
            0
        }) + (if repo.checks@.len() > 0 {
            1int
        } else {
            0
        }) + repo.notes@.len(),
        repo.notes@.len() > 0 ==> repo.lines_spec().last() == "- "@ + repo.notes@.last()@,
{
}

/// A task of a plan is shown with its id, kind and title and with what it waits
/// for, and has one line for each of its criteria.
pub proof fn law_a_planned_task_is_shown(task: PlanTask, i: int)
    ensures
        task.depends_on@.len() == 0 ==> task.lines_spec()[0] == "- "@ + task.id@ + " ["@ + task.kind@
            + "] "@ + task.title@ + " — depends on: "@ + "nothing"@,
        task.depends_on@.len() > 0 ==> task.lines_spec()[0] == "- "@ + task.id@ + " ["@ + task.kind@
            + "] "@ + task.title@ + " — depends on: "@ + join_of(
            views(task.depends_on@),
            ", "@,
        ),
        task.lines_spec().len() == 1 + task.acceptance_criteria@.len(),
        0 <= i < task.acceptance_criteria@.len() ==> task.lines_spec()[i + 1]
            == "  - acceptance: "@ + task.acceptance_criteria@[i]@,
{
}

/// A plan shows its tasks one after the other.
pub proof fn law_tasks_are_shown_in_order(tasks: Seq<PlanTask>, task: PlanTask)
    ensures
        task_lines(Seq::empty()).len() == 0,
        task_lines(tasks.push(task)) == task_lines(tasks) + task.lines_spec(),
{
    assert(tasks.push(task).drop_last() =~= tasks);
}

/// An understanding shows its objective and complexity first, and every criterion,
/// assumption and risk.
pub proof fn law_an_understanding_is_shown(u: Understanding, i: int)
    ensures
        u.lines_spec()[0] == "Objective: "@ + u.objective@,
        u.lines_spec()[1] == "Complexity: "@ + complexity_name(u.complexity),
        u.success_criteria@.len() > 0 ==> u.lines_spec()[2] == "Success criteria:"@,
        0 <= i < u.success_criteria@.len() ==> u.lines_spec()[3 + i] == "- "@
            + u.success_criteria@[i]@,
        u.success_criteria@.len() == 0 && 0 <= i < u.assumptions@.len() ==> u.lines_spec()[2]
            == "Assumptions:"@ && u.lines_spec()[3 + i] == "- "@ + u.assumptions@[i]@,
        u.success_criteria@.len() == 0 && u.assumptions@.len() == 0 && 0 <= i < u.risks@.len()
            ==> u.lines_spec()[2] == "Risks:"@ && u.lines_spec()[3 + i] == "- "@ + u.risks@[i]@,
{
}

/// The integration's facts tell its mode, its base branch, how pull requests are
/// made and the checks, and every known conflict.
pub proof fn law_integration_facts_are_shown(facts: IntegrationFacts, i: int)
    ensures
        facts.lines_spec()[0] == "- mode: "@ + facts.mode@,
        facts.lines_spec()[1] == "- base branch: "@ + facts.base_branch@,
        facts.pr_per_task ==> facts.lines_spec()[2] == "- pull requests: "@
            + "one per succeeded task"@,
        !facts.pr_per_task ==> facts.lines_spec()[2] == "- pull requests: "@
            + "one for the whole run"@,
        facts.checks@.len() == 0 ==> facts.lines_spec()[3] == "- declared checks: none"@,
        facts.checks@.len() > 0 ==> facts.lines_spec()[3] == "- declared checks: "@ + join_of(
            views(facts.checks@),
            " && "@,
        ),
        facts.lines_spec().len() == 4 + facts.conflicts@.len(),
        0 <= i < facts.conflicts@.len() ==> facts.lines_spec()[4 + i] == "- known conflict: "@
            + facts.conflicts@[i]@,
{
}

/// The outcome of a run tells its status, its duration and its tokens, and its
/// cost and failure where there are any.
pub proof fn law_an_outcome_is_shown(outcome: RunOutcome)
    ensures
        outcome.lines_spec()[0] == "- status: "@ + outcome.status@,
        outcome.lines_spec()[1] == "- duration: "@ + duration_text(outcome.duration),
        outcome.lines_spec()[2] == "- tokens: "@ + decimal_of(outcome.usage.input_tokens as nat)
            + " in / "@ + decimal_of(outcome.usage.output_tokens as nat) + " out"@,
        outcome.usage.cost_usd matches Some(cost) ==> outcome.lines_spec()[3] == "- cost: "@
            + usd_text(cost) + " USD"@,
        outcome.failure_reason matches Some(reason) ==> outcome.lines_spec().last()
            == "- failure reason: "@ + reason@,
        outcome.usage.cost_usd is None && outcome.failure_reason is None
            ==> outcome.lines_spec().len() == 3,
{
}

/// Every variable of a prompt has its value of the context: the goal trimmed, the
/// repository, the limits, the memory and each list.
pub proof fn law_variables_show_the_context(ctx: RoleContext, rules: PlanRules)
    ensures
        ctx.plain_vars(rules)[0] == ("goal"@, ValueView::Text(trim_of(ctx.goal@))),
        ctx.plain_vars(rules)[1] == ("repo"@, ValueView::Text(ctx.repo.rendered())),
        ctx.plain_vars(rules)[5] == (
            "max_questions_per_run"@,
            ValueView::Text(decimal_of(ctx.limits.max_questions_per_run as nat)),
        ),
        ctx.plain_vars(rules)[6] == (
            "max_tasks_per_run"@,
            ValueView::Text(decimal_of(ctx.limits.max_tasks_per_run as nat)),
        ),
        ctx.memory is None ==> ctx.section_vars()[0] == ("memory"@, ValueView::Optional(None)),
        ctx.memory matches Some(m) ==> ctx.section_vars()[0] == (
            "memory"@,
            ValueView::Optional(Some(m@.text)),
        ),
        ctx.prior_answers@.len() == 0 ==> ctx.section_vars()[1] == (
            "prior_answers"@,
            ValueView::Lines(Seq::empty()),
        ),
        ctx.understanding is None ==> ctx.section_vars()[5] == (
            "understanding"@,
            ValueView::Optional(None),
        ),
        ctx.plan is None ==> ctx.section_vars()[6] == ("plan"@, ValueView::Optional(None)),
        ctx.plan matches Some(plan) ==> ctx.section_vars()[6] == (
            "plan"@,
            ValueView::Optional(Some(plan.rendered())),
        ),
{
    if ctx.prior_answers@.len() == 0 {
        assert(shown_all(ctx.prior_answers@) =~= Seq::<Seq<char>>::empty());
    }
}

} // verus!
