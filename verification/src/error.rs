//! The failures of the services.
use vstd::prelude::*;

use crate::ids::{uuid_text, uuid_text_of};
use crate::ports::PortError;
use crate::text::{cat, cat3, decimal, decimal_of};

verus! {

/// Why an aggregate refused a command.
#[derive(Debug, PartialEq, Eq)]
pub enum DomainError {
    NotFound { message: String },
    /// The aggregate is not in a state for it.
    InvalidTransition { message: String },
    InvalidPlan { errors: Vec<String>, message: String },
    Other { message: String },
}

impl DomainError {
    pub open spec fn shown(self) -> Seq<char> {
        match self {
            DomainError::NotFound { message } => message@,
            DomainError::InvalidTransition { message } => message@,
            DomainError::InvalidPlan { message, .. } => message@,
            DomainError::Other { message } => message@,
        }
    }

    /// The refusal in words.
    pub fn text(&self) -> (r: String)
        ensures
            r@ == self.shown(),
    {
        match self {
            DomainError::NotFound { message } => message.clone(),
            DomainError::InvalidTransition { message } => message.clone(),
            DomainError::InvalidPlan { message, .. } => message.clone(),
            DomainError::Other { message } => message.clone(),
        }
    }
}

/// Why the store failed.
#[derive(Debug, PartialEq, Eq)]
pub enum StoreError {
    /// The stream moved on.
    VersionConflict { message: String },
    Other { message: String },
}

impl StoreError {
    pub open spec fn shown(self) -> Seq<char> {
        match self {
            StoreError::VersionConflict { message } => message@,
            StoreError::Other { message } => message@,
        }
    }

    /// The failure in words.
    pub fn text(&self) -> (r: String)
        ensures
            r@ == self.shown(),
    {
        match self {
            StoreError::VersionConflict { message } => message.clone(),
            StoreError::Other { message } => message.clone(),
        }
    }
}

/// Why a service could not apply a command.
#[derive(Debug, PartialEq, Eq)]
#[allow(inconsistent_fields)]
pub enum AppError {
    /// There is no such run, task or question.
    NotFound { aggregate: &'static str, id: u128 },
    /// The aggregate refused the command.
    Domain(DomainError),
    /// The stream kept moving on.
    Conflict { stream: String, attempts: u32 },
    Store(StoreError),
    /// The command was processed before; its result, as JSON text, is not what
    /// was expected.
    Duplicate(String),
    /// A recorded event cannot be read.
    Corrupt { stream: String, message: String },
    /// A port failed.
    Port(PortError),
}

impl AppError {
    /// The command may be sent again as it is.
    pub open spec fn transient(self) -> bool {
        self is Conflict || self is Store
    }

    /// The aggregate was past the command already.
    pub open spec fn out_of_turn(self) -> bool {
        self matches AppError::Domain(e) && e is InvalidTransition
    }

    /// Whether the command may be sent again as it is.
    pub fn is_transient(&self) -> (b: bool)
        ensures
            b == self.transient(),
    {
        match self {
            AppError::Conflict { .. } => true,
            AppError::Store(_) => true,
            _ => false,
        }
    }

    /// Whether the aggregate was past the command already.
    pub fn is_invalid_transition(&self) -> (b: bool)
        ensures
            b == self.out_of_turn(),
    {
        match self {
            AppError::Domain(DomainError::InvalidTransition { .. }) => true,
            _ => false,
        }
    }

    pub open spec fn shown(self) -> Seq<char> {
        match self {
            AppError::NotFound { aggregate, id } => aggregate@ + " "@ + uuid_text_of(id)
                + " not found"@,
            AppError::Domain(e) => e.shown(),
            AppError::Conflict { stream, attempts } => "optimistic concurrency conflict on "@
                + stream@ + " after "@ + decimal_of(attempts as nat) + " attempts"@,
            AppError::Store(e) => e.shown(),
            AppError::Duplicate(_) => "command already processed"@,
            AppError::Corrupt { stream, message } => "corrupt stream "@ + stream@ + ": "@
                + message@,
            AppError::Port(e) => e.shown(),
        }
    }

    /// The failure in words.
    pub fn text(&self) -> (r: String)
        ensures
            r@ == self.shown(),
    {
        match self {
            AppError::NotFound { aggregate, id } => {
                let id_text = uuid_text(*id);
                let head = cat3(aggregate, " ", id_text.as_str());
                cat(head.as_str(), " not found")
            },
            AppError::Domain(e) => e.text(),
            AppError::Conflict { stream, attempts } => {
                let n = decimal(*attempts as u64);
                let mut s = cat3(
                    "optimistic concurrency conflict on ",
                    stream.as_str(),
                    " after ",
                );
                s.append(n.as_str());
                s.append(" attempts");
                s
            },
            AppError::Store(e) => e.text(),
            AppError::Duplicate(_) => "command already processed".to_owned(),
            AppError::Corrupt { stream, message } => {
                let mut s = cat3("corrupt stream ", stream.as_str(), ": ");
                s.append(message.as_str());
                s
            },
            AppError::Port(e) => e.text(),
        }
    }
}

// ---------------------------------------------------------------------------
// Laws
// ---------------------------------------------------------------------------
/// Only a conflict and a failure of the store are worth sending a command again.
pub proof fn law_only_conflicts_and_store_failures_pass(error: AppError)
    ensures
        error is Conflict || error is Store ==> error.transient(),
        error is NotFound || error is Domain || error is Duplicate || error is Corrupt
            || error is Port ==> !error.transient(),
{
}

/// Only the aggregate's own refusal of a step out of turn is an invalid
/// transition.
pub proof fn law_only_aggregates_refuse_transitions(error: AppError)
    ensures
        error matches AppError::Domain(refusal) ==> (error.out_of_turn() <==> refusal
            is InvalidTransition),
        !(error is Domain) ==> !error.out_of_turn(),
{
}

/// A failure is told in the words of what failed; a service's own failures name
/// the aggregate, the stream and the number of attempts.
pub proof fn law_failures_are_told_in_words(error: AppError)
    ensures
        (error matches AppError::Domain(DomainError::InvalidTransition { message }) ==> error.shown()
            == message@),
        (error matches AppError::Domain(DomainError::NotFound { message }) ==> error.shown()
            == message@),
        (error matches AppError::Domain(DomainError::InvalidPlan { message, .. }) ==> error.shown()
            == message@),
        (error matches AppError::Domain(DomainError::Other { message }) ==> error.shown()
            == message@),
        (error matches AppError::Store(StoreError::VersionConflict { message }) ==> error.shown()
            == message@),
        (error matches AppError::Store(StoreError::Other { message }) ==> error.shown()
            == message@),
        error matches AppError::NotFound { aggregate, id } ==> error.shown() == aggregate@ + " "@
            + uuid_text_of(id) + " not found"@,
        error matches AppError::Conflict { stream, attempts } ==> error.shown()
            == "optimistic concurrency conflict on "@ + stream@ + " after "@ + decimal_of(
            attempts as nat,
        ) + " attempts"@,
{
}

} // verus!
