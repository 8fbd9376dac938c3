//! The commands that the saga and the task runner hand to the services.
use vstd::prelude::*;

use crate::domain::{
    Answer, ArtifactRef, AttemptId, FailureClass, QuestionId, QuestionOption, QuestionPolicy,
    RunId, TaskId, Usage, DEFAULT_ANSWERED_BY,
};

verus! {

/// Asks a question.
#[derive(Debug, PartialEq, Eq)]
pub struct AskQuestion {
    pub question_id: QuestionId,
    pub run_id: RunId,
    /// `None` for a clarification of the run.
    pub task_id: Option<TaskId>,
    pub text: String,
    pub options: Vec<QuestionOption>,
    pub multi_select: bool,
    pub default: Option<Answer>,
    pub policy: QuestionPolicy,
}

/// Records progress of an attempt.
#[derive(Debug, PartialEq, Eq)]
pub struct RecordProgress {
    pub attempt_id: AttemptId,
    pub summary: String,
    pub usage_delta: Usage,
    pub log_seq: u64,
}

/// Ends an attempt with success.
#[derive(Debug, PartialEq, Eq)]
pub struct SucceedAttempt {
    pub attempt_id: AttemptId,
    pub artifacts: Vec<ArtifactRef>,
    pub usage: Usage,
    pub summary: String,
}

/// Ends an attempt with a failure.
#[derive(Debug, PartialEq, Eq)]
pub struct FailAttempt {
    pub attempt_id: AttemptId,
    pub class: FailureClass,
    pub message: String,
    pub usage: Usage,
}

/// What became of a command.
#[derive(Debug, Clone, Copy, PartialEq, Eq, Structural)]
pub enum Recorded {
    Done,
    /// The aggregate is past it already.
    InvalidTransition,
    Failed,
}

/// The answer is the one option with this label, given by default.
pub open spec fn is_default_answer(answer: Answer, label: Seq<char>) -> bool {
    &&& answer.selected@.len() == 1
    &&& answer.selected@[0]@ == label
    &&& answer.free_text is None
    &&& answer.answered_by@ == DEFAULT_ANSWERED_BY@
}

/// The answer that takes one option by default.
pub fn default_answer(label: &str) -> (r: Answer)
    ensures
        is_default_answer(r, label@),
{
    let mut selected: Vec<String> = Vec::new();
    selected.push(label.to_owned());
    Answer { selected, free_text: None, answered_by: DEFAULT_ANSWERED_BY.to_owned() }
}

// ---------------------------------------------------------------------------
// Laws
// ---------------------------------------------------------------------------
/// A default answer selects the one option and says that nobody chose it.
pub proof fn law_a_default_answer_is_its_option(answer: Answer, label: Seq<char>)
    requires
        is_default_answer(answer, label),
    ensures
        answer.selected@.len() == 1 && answer.selected@[0]@ == label,
        answer.free_text is None,
        answer.answered_by@ == DEFAULT_ANSWERED_BY@,
{
}

} // verus!
