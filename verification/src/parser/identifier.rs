//! The identifier, with the type it may be given.

use vstd::prelude::*;
use crate::error::Error;
use crate::lexer::Lexer;
use crate::lexer::stream::Stream;
use crate::lexer::token::Lexeme;
use crate::lexer::token::Symbol;
use crate::lexer::token::Token;
use crate::lexer::token::TokenView;
use crate::parser::error::Expected;
use crate::parser::extended;
use crate::parser::grammar::annotation;
use crate::parser::grammar::identifiers;
use crate::parser::grammar;
use crate::parser::initial_view;
use crate::parser::lemma_extended;
use crate::parser::lemma_views_empty;
use crate::parser::lemma_views_push;
use crate::parser::list_view;
use crate::parser::parses;
use crate::parser::peek_next;
use crate::parser::started;
use crate::parser::take_or_next;
use crate::parser::views;

verus! {


/// A name, as a function's parameter, a function's result or a declared
/// variable is written: with or without a type after a colon.
#[derive(Debug, Clone, PartialEq, Eq)]
pub struct Identifier {
    /// The name.
    pub name: String,
    /// The type, where one is given.
    pub yul_type: Option<String>,
}

/// The model of an [`Identifier`].
pub struct IdentifierView {
    pub name: Seq<char>,
    pub yul_type: Option<Seq<char>>,
}

impl View for Identifier {
    type V = IdentifierView;

    open spec fn view(&self) -> IdentifierView {
        IdentifierView {
            name: self.name@,
            yul_type: match self.yul_type {
                Some(name) => Some(name@),
                None => None,
            },
        }
    }
}

impl Identifier {
    /// Parses the type that follows a name, where `typed` holds and a colon
    /// stands next.
    fn parse_annotation(lexer: &mut Lexer, typed: bool) -> (result: Result<Option<String>, Error>)
        ensures
            match annotation(old(lexer)@, typed) {
                Ok((yul_type, taken)) => result matches Ok(found) && final(lexer)@ == old(
                    lexer,
                )@.skip(taken) && match yul_type {
                    Some(name) => found matches Some(text) && text@ == name,
                    None => found is None,
                },
                Err(error) => result matches Err(raised) && raised@ == error,
            },
    {
        proof {
            lexer@.lemma_skip_nothing();
            lexer@.lemma_skip_skip(1, 1);
        }
        if !typed {
            return Ok(None);
        }
        let next = match peek_next(lexer) {
            Ok(token) => token,
            Err(error) => {
                return Err(error);
            },
        };
        if !next.lexeme.is_symbol(Symbol::Colon) {
            return Ok(None);
        }
        let _ = take_or_next(None, lexer);
        let name = match take_or_next(None, lexer) {
            Ok(token) => token,
            Err(error) => {
                return Err(error);
            },
        };
        match name.lexeme {
            Lexeme::Identifier(yul_type) => Ok(Some(yul_type)),
            _ => Err(Error::unexpected(Expected::one(Expected::Identifier), name)),
        }
    }

    /// Parses names with commas between them, each with its type where
    /// `typed` holds and one is given.
    fn parse_names(lexer: &mut Lexer, initial: Option<Token>, typed: bool) -> (result: Result<
        Vec<Identifier>,
        Error,
    >)
        ensures
            parses(
                started(
                    initial_view(initial),
                    old(lexer)@,
                    |first: TokenView, rest: Stream| identifiers(first, rest, typed),
                ),
                old(lexer)@,
                final(lexer)@,
                list_view(result),
            ),
    {
        proof {
            reveal(grammar::identifiers);
        }
        let ghost start = lexer@;
        let ghost total = started(
            initial_view(initial),
            start,
            |first: TokenView, rest: Stream| identifiers(first, rest, typed),
        );
        let ghost mut taken: nat = if initial is Some { 0 } else { 1 };
        let mut list: Vec<Identifier> = Vec::new();
        let mut first = match take_or_next(initial, lexer) {
            Ok(token) => token,
            Err(error) => {
                return Err(error);
            },
        };
        proof {
            start.lemma_skip_nothing();
            lemma_views_empty(list);
            match identifiers(first@, lexer@, typed) {
                Ok((more, count)) => {
                    assert(Seq::<IdentifierView>::empty() + more =~= more);
                },
                Err(error) => {},
            }
        }
        loop
            invariant
                lexer@ == start.skip(taken),
                total == extended(views(list), taken, identifiers(first@, lexer@, typed)),
                total == started(
                    initial_view(initial),
                    start,
                    |first: TokenView, rest: Stream| identifiers(first, rest, typed),
                ),
                start == old(lexer)@,
            decreases lexer@.len(),
        {
            proof {
                reveal(grammar::identifiers);
            }
            let ghost rest = lexer@;
            let ghost before = list;
            let ghost head = first@;
            let name = match first.lexeme {
                Lexeme::Identifier(name) => name,
                _ => {
                    return Err(Error::unexpected(Expected::one(Expected::Identifier), first));
                },
            };
            let yul_type = match Self::parse_annotation(lexer, typed) {
                Ok(found) => found,
                Err(error) => {
                    return Err(error);
                },
            };
            let ghost step = annotation(rest, typed)->Ok_0.1;
            let identifier = Identifier { name, yul_type };
            proof {
                start.lemma_skip_skip(taken, step);
                start.lemma_skip_skip(taken, step + 1);
                start.lemma_skip_skip(taken, step + 2);
                rest.skip(step).lemma_skip_skip(1, 1);
                rest.lemma_skip_skip(step, 1);
                rest.lemma_skip_skip(step, 2);
            }
            let next = match peek_next(lexer) {
                Ok(token) => token,
                Err(error) => {
                    return Err(error);
                },
            };
            if !next.lexeme.is_symbol(Symbol::Comma) {
                list.push(identifier);
                proof {
                    lemma_views_push(before, list, identifier);
                    assert(views(before) + seq![identifier@] =~= views(list));
                }
                return Ok(list);
            }
            let _ = take_or_next(None, lexer);
            first = match take_or_next(None, lexer) {
                Ok(token) => token,
                Err(error) => {
                    return Err(error);
                },
            };
            list.push(identifier);
            proof {
                lemma_views_push(before, list, identifier);
                lemma_extended(
                    views(before),
                    taken,
                    identifier@,
                    step + 2,
                    identifiers(first@, rest.skip(step + 2), typed),
                );
                taken = taken + step + 2;
            }
        }
    }

    /// Parses a list of names with commas between them.
    pub fn parse_list(lexer: &mut Lexer, initial: Option<Token>) -> (result: Result<
        Vec<Identifier>,
        Error,
    >)
        ensures
            parses(
                started(
                    initial_view(initial),
                    old(lexer)@,
                    |first: TokenView, rest: Stream| identifiers(first, rest, false),
                ),
                old(lexer)@,
                final(lexer)@,
                list_view(result),
            ),
    {
        Self::parse_names(lexer, initial, false)
    }

    /// Parses a list of names with commas between them, each with the type
    /// that may follow it after a colon.
    pub fn parse_typed_list(lexer: &mut Lexer, initial: Option<Token>) -> (result: Result<
        Vec<Identifier>,
        Error,
    >)
        ensures
            parses(
                started(
                    initial_view(initial),
                    old(lexer)@,
                    |first: TokenView, rest: Stream| identifiers(first, rest, true),
                ),
                old(lexer)@,
                final(lexer)@,
                list_view(result),
            ),
    {
        Self::parse_names(lexer, initial, true)
    }
}

} // verus!
