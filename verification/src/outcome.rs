//! What a fetch ends in, and the entry that records it.

use vstd::prelude::*;

verus! {

/// The end of one fetch: the label found, or the reason why there is none.
#[derive(Debug, PartialEq, Eq)]
pub enum FetchOutcome {
    Success { label: String },
    Failure { reason: String },
}

/// A `FetchOutcome` as a mathematical value.
pub enum OutcomeModel {
    Success { label: Seq<char> },
    Failure { reason: Seq<char> },
}

impl View for FetchOutcome {
    type V = OutcomeModel;

    open spec fn view(&self) -> OutcomeModel {
        match self {
            FetchOutcome::Success { label } => OutcomeModel::Success { label: label@ },
            FetchOutcome::Failure { reason } => OutcomeModel::Failure { reason: reason@ },
        }
    }
}

impl DeepView for FetchOutcome {
    type V = OutcomeModel;

    open spec fn deep_view(&self) -> OutcomeModel {
        self@
    }
}

impl OutcomeModel {
    /// The text that stands for this outcome in the rendered document: the
    /// label of a success, the reason of a failure.
    pub open spec fn text(self) -> Seq<char> {
        match self {
            OutcomeModel::Success { label } => label,
            OutcomeModel::Failure { reason } => reason,
        }
    }
}

impl FetchOutcome {
    /// The label of a success, the reason of a failure.
    pub fn text(&self) -> (text: &str)
        ensures
            text@ == self@.text(),
    {
        match self {
            FetchOutcome::Success { label } => label.as_str(),
            FetchOutcome::Failure { reason } => reason.as_str(),
        }
    }

    pub fn is_success(&self) -> (yes: bool)
        ensures
            yes == (self@ is Success),
    {
        match self {
            FetchOutcome::Success { .. } => true,
            FetchOutcome::Failure { .. } => false,
        }
    }
}

impl Clone for FetchOutcome {
    fn clone(&self) -> (copy: Self)
        ensures
            copy == *self,
    {
        match self {
            FetchOutcome::Success { label } => FetchOutcome::Success { label: label.clone() },
            FetchOutcome::Failure { reason } => FetchOutcome::Failure { reason: reason.clone() },
        }
    }
}

/// An address together with the outcome of fetching it.
#[derive(Debug, PartialEq, Eq)]
pub struct ResultEntry {
    pub address: String,
    pub outcome: FetchOutcome,
}

/// A `ResultEntry` as a mathematical value.
pub struct EntryModel {
    pub address: Seq<char>,
    pub outcome: OutcomeModel,
}

impl View for ResultEntry {
    type V = EntryModel;

    open spec fn view(&self) -> EntryModel {
        EntryModel { address: self.address@, outcome: self.outcome@ }
    }
}

impl DeepView for ResultEntry {
    type V = EntryModel;

    open spec fn deep_view(&self) -> EntryModel {
        self@
    }
}

impl Clone for ResultEntry {
    fn clone(&self) -> (copy: Self)
        ensures
            copy == *self,
    {
        ResultEntry { address: self.address.clone(), outcome: self.outcome.clone() }
    }
}

} // verus!
