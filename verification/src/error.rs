//! The errors of the compiler.

use vstd::prelude::*;
use crate::generator::error::Error as GeneratorError;
use crate::generator::machine::Fault;
use crate::lexer::error::Error as LexerError;
use crate::lexer::error::ErrorView as LexerErrorView;
use crate::lexer::token::Token;
use crate::lexer::token::TokenView;
use crate::parser::error::Error as ParserError;
use crate::parser::error::ErrorView as ParserErrorView;
use crate::parser::error::Expected;
verus! {

/// What stops a compilation. Every error is fatal: no stage goes on after one.
#[derive(Debug, Clone, PartialEq, Eq)]
pub enum Error {
    /// The source holds what is no lexeme.
    Lexer(LexerError),
    /// The tokens do not follow the grammar.
    Parser(ParserError),
    /// The syntax tree cannot be lowered.
    Generator(GeneratorError),
    /// The machine that ran the code has stopped.
    Machine(Fault),
    /// The source that is to be compiled and run holds no statement, or
    /// parts behind its first statement.
    UnparsedParts,
}

/// The model of an [`Error`].
pub enum ErrorView {
    Lexer(LexerErrorView),
    Parser(ParserErrorView),
    Generator(GeneratorError),
    Machine(Fault),
    UnparsedParts,
}

impl View for Error {
    type V = ErrorView;

    open spec fn view(&self) -> ErrorView {
        match self {
            Error::Lexer(error) => ErrorView::Lexer(error@),
            Error::Parser(error) => ErrorView::Parser(error@),
            Error::Generator(error) => ErrorView::Generator(*error),
            Error::Machine(fault) => ErrorView::Machine(*fault),
            Error::UnparsedParts => ErrorView::UnparsedParts,
        }
    }
}

impl ErrorView {
    /// The syntax error that `found` raises where one of `expected` should stand.
    pub open spec fn unexpected(expected: Seq<Expected>, found: TokenView) -> ErrorView {
        ErrorView::Parser(
            ParserErrorView::ExpectedOneOf {
                location: found.location,
                expected,
                found: found.lexeme,
            },
        )
    }
}

impl Error {
    /// The syntax error that `found` raises where one of `expected` should stand.
    pub fn unexpected(expected: Vec<Expected>, found: Token) -> (error: Error)
        ensures
            error@ == ErrorView::unexpected(expected@, found@),
    {
        Error::Parser(
            ParserError::ExpectedOneOf {
                location: found.location,
                expected,
                found: found.lexeme,
            },
        )
    }
}

} // verus!
