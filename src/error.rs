use vstd::prelude::*;

verus! {

/// Everything that stops one page from being transformed.
///
/// Each variant aborts only the current page; nothing is written for it.
#[derive(Clone, Debug, PartialEq, Eq)]
pub enum HistoryError {
    /// A date text that the date grammar does not accept.
    DateParse(String),
    /// A parameter name that the block's schema does not know.
    UnrecognizedParameter(String),
    /// The same field given twice for one record.
    DuplicateParameter(String),
    /// A field that a record needs is absent.
    MissingRequiredField(String),
    /// An action kind that is not one of the known codes.
    UnknownActionKind(String),
    /// Two blocks name different topics.
    TopicConflict,
    /// An action kind with a result text outside the rule table.
    UnknownActionResult,
    /// The derived status has several parts in a combination that is not allowed.
    AmbiguousStatus,
    /// The declared status contradicts the derived one.
    StatusMismatch,
    /// No aggregate block and no anchor to put a new one next to.
    NoAnchor,
    /// The page asks not to be edited automatically.
    BotExcluded,
    /// More than one aggregate block on the page.
    AmbiguousTemplateInstance,
    /// A peer review whose status cannot be decided without asking.
    ReviewUndecided,
}

/// The mathematical view of an error: its offending text as a sequence.
pub enum ErrorView {
    DateParse(Seq<char>),
    UnrecognizedParameter(Seq<char>),
    DuplicateParameter(Seq<char>),
    MissingRequiredField(Seq<char>),
    UnknownActionKind(Seq<char>),
    TopicConflict,
    UnknownActionResult,
    AmbiguousStatus,
    StatusMismatch,
    NoAnchor,
    BotExcluded,
    AmbiguousTemplateInstance,
    ReviewUndecided,
}

impl View for HistoryError {
    type V = ErrorView;

    open spec fn view(&self) -> ErrorView {
        match self {
            HistoryError::DateParse(s) => ErrorView::DateParse(s@),
            HistoryError::UnrecognizedParameter(s) => ErrorView::UnrecognizedParameter(s@),
            HistoryError::DuplicateParameter(s) => ErrorView::DuplicateParameter(s@),
            HistoryError::MissingRequiredField(s) => ErrorView::MissingRequiredField(s@),
            HistoryError::UnknownActionKind(s) => ErrorView::UnknownActionKind(s@),
            HistoryError::TopicConflict => ErrorView::TopicConflict,
            HistoryError::UnknownActionResult => ErrorView::UnknownActionResult,
            HistoryError::AmbiguousStatus => ErrorView::AmbiguousStatus,
            HistoryError::StatusMismatch => ErrorView::StatusMismatch,
            HistoryError::NoAnchor => ErrorView::NoAnchor,
            HistoryError::BotExcluded => ErrorView::BotExcluded,
            HistoryError::AmbiguousTemplateInstance => ErrorView::AmbiguousTemplateInstance,
            HistoryError::ReviewUndecided => ErrorView::ReviewUndecided,
        }
    }
}

} // verus!
