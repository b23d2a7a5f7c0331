//! The ways in which a fragment or a record can be refused.

use vstd::prelude::*;

verus! {

#[derive(Debug, Clone, PartialEq, Eq)]
pub enum QifParsingError {
    /// The text is not a decimal amount, or its hundredths do not fit in 64 bits.
    InvalidAmount(String),
    /// The text does not follow the pattern (second field), or names no calendar day.
    InvalidDate(String, String),
    /// A record was finished before the named field had been given.
    MissingRequiredField(String),
}

/// What an error says, with each text as a sequence of characters.
pub enum ErrorView {
    InvalidAmount(Seq<char>),
    InvalidDate(Seq<char>, Seq<char>),
    MissingRequiredField(Seq<char>),
}

impl View for QifParsingError {
    type V = ErrorView;

    open spec fn view(&self) -> ErrorView {
        match self {
            QifParsingError::InvalidAmount(text) => ErrorView::InvalidAmount(text@),
            QifParsingError::InvalidDate(text, pattern) => ErrorView::InvalidDate(text@, pattern@),
            QifParsingError::MissingRequiredField(name) => ErrorView::MissingRequiredField(name@),
        }
    }
}

impl QifParsingError {
    /// A copy of the error that says the same.
    pub fn duplicate(&self) -> (out: QifParsingError)
        ensures
            out@ == self@,
    {
        match self {
            QifParsingError::InvalidAmount(text) => QifParsingError::InvalidAmount(text.clone()),
            QifParsingError::InvalidDate(text, pattern) => QifParsingError::InvalidDate(
                text.clone(),
                pattern.clone(),
            ),
            QifParsingError::MissingRequiredField(name) => QifParsingError::MissingRequiredField(
                name.clone(),
            ),
        }
    }
}

} // verus!
