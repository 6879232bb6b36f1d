//! The syntax errors.

use vstd::prelude::*;
use crate::lexer::location::Location;
use crate::lexer::token::Keyword;
use crate::lexer::token::Lexeme;
use crate::lexer::token::LexemeView;
use crate::lexer::token::Symbol;
use crate::parser::grammar;

verus! {

/// The description of a token that the parser would have accepted.
#[derive(Debug, Clone, Copy, PartialEq, Eq, Structural)]
pub enum Expected {
    /// The given keyword.
    Keyword(Keyword),
    /// The given symbol.
    Symbol(Symbol),
    /// Any identifier.
    Identifier,
    /// Any literal.
    Literal,
}

impl Expected {
    /// The list that holds `expected` alone.
    pub fn one(expected: Expected) -> (list: Vec<Expected>)
        ensures
            list@ == seq![expected],
    {
        let list = vec![expected];
        assert(list@ =~= seq![expected]);
        list
    }

    /// The list that holds `first` and `second`.
    pub fn two(first: Expected, second: Expected) -> (list: Vec<Expected>)
        ensures
            list@ == seq![first, second],
    {
        let list = vec![first, second];
        assert(list@ =~= seq![first, second]);
        list
    }

    /// The keywords that start a statement.
    pub fn statement_start() -> (list: Vec<Expected>)
        ensures
            list@ == grammar::statement_start(),
    {
        let list = vec![
            Expected::Keyword(Keyword::Function),
            Expected::Keyword(Keyword::Let),
            Expected::Keyword(Keyword::If),
            Expected::Keyword(Keyword::Switch),
            Expected::Keyword(Keyword::For),
            Expected::Keyword(Keyword::Break),
            Expected::Keyword(Keyword::Continue),
            Expected::Keyword(Keyword::Leave),
        ];
        assert(list@ =~= grammar::statement_start());
        list
    }

    /// What may stand where a block expects its next item.
    pub fn block_item_start() -> (list: Vec<Expected>)
        ensures
            list@ == grammar::block_item_start(),
    {
        let list = vec![
            Expected::Keyword(Keyword::Function),
            Expected::Keyword(Keyword::Let),
            Expected::Keyword(Keyword::If),
            Expected::Keyword(Keyword::Switch),
            Expected::Keyword(Keyword::For),
            Expected::Keyword(Keyword::Break),
            Expected::Keyword(Keyword::Continue),
            Expected::Keyword(Keyword::Leave),
            Expected::Identifier,
            Expected::Literal,
            Expected::Symbol(Symbol::BracketCurlyLeft),
            Expected::Symbol(Symbol::BracketCurlyRight),
        ];
        assert(list@ =~= grammar::block_item_start());
        list
    }
}

/// What stops the parser.
#[derive(Debug, Clone, PartialEq, Eq)]
pub enum Error {
    /// The token at `location` holds `found`, which is none of `expected`.
    /// `found` is the end of the source where the source ends too early.
    ExpectedOneOf { location: Location, expected: Vec<Expected>, found: Lexeme },
}

/// The model of an [`Error`].
pub enum ErrorView {
    ExpectedOneOf { location: Location, expected: Seq<Expected>, found: LexemeView },
}

impl View for Error {
    type V = ErrorView;

    open spec fn view(&self) -> ErrorView {
        match self {
            Error::ExpectedOneOf { location, expected, found } => ErrorView::ExpectedOneOf {
                location: *location,
                expected: expected@,
                found: found@,
            },
        }
    }
}

} // verus!
