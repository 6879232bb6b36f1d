//! The lexical errors.

use vstd::prelude::*;
use crate::lexer::location::Location;
verus! {

/// What stops the scanner.
#[derive(Debug, Clone, PartialEq, Eq)]
pub enum Error {
    /// No lexeme starts at `location`: `sequence` holds the characters from
    /// there up to the next whitespace.
    InvalidLexeme { location: Location, sequence: String },
}

/// The model of an [`Error`].
pub enum ErrorView {
    InvalidLexeme { location: Location, sequence: Seq<char> },
}

impl View for Error {
    type V = ErrorView;

    open spec fn view(&self) -> ErrorView {
        match self {
            Error::InvalidLexeme { location, sequence } => ErrorView::InvalidLexeme {
                location: *location,
                sequence: sequence@,
            },
        }
    }
}

} // verus!
