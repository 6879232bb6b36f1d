//! The recursive-descent parser.

pub mod erasure;
pub mod error;
pub mod grammar;
pub mod identifier;
pub mod statement;

use vstd::prelude::*;
use crate::error::Error;
use crate::error::ErrorView;
use crate::lexer::Lexer;
use crate::lexer::stream::Stream;
use crate::lexer::token::Keyword;
use crate::lexer::token::Lexeme;
use crate::lexer::token::LexemeView;
use crate::lexer::token::Literal;
use crate::lexer::token::Symbol;
use crate::lexer::token::Token;
use crate::lexer::token::TokenView;
use crate::parser::error::Expected;
use crate::parser::grammar::Parsed;
use crate::parser::grammar::block;
use crate::parser::grammar::braced;
use crate::parser::grammar::items;
use crate::parser::grammar::later;
use crate::parser::grammar::object;
use crate::parser::grammar::program;
use crate::parser::statement::Statement;
use crate::parser::statement::StatementView;
use crate::parser::statement::block::Block;
use crate::parser::statement::block::BlockView;
use crate::parser::statement::switch::CaseView;

verus! {

/// The model of the token that a rule is given to start with, if any.
pub open spec fn initial_view(initial: Option<Token>) -> Option<TokenView> {
    match initial {
        Some(token) => Some(token@),
        None => None,
    }
}

/// The model of what a rule hands back.
pub open spec fn result_view<T: View>(result: Result<T, Error>) -> Result<T::V, ErrorView> {
    match result {
        Ok(value) => Ok(value@),
        Err(error) => Err(error@),
    }
}

/// The outcome of `rule` where it starts with `initial`, or, where none is
/// given, with the head of `s`, which then counts among the tokens taken.
pub open spec fn started<T>(
    initial: Option<TokenView>,
    s: Stream,
    rule: spec_fn(TokenView, Stream) -> Parsed<T>,
) -> Parsed<T> {
    match initial {
        Some(first) => rule(first, s),
        None => match s.head() {
            Err(error) => Err(ErrorView::Lexer(error)),
            Ok(first) => later(1, rule(first, s.tail())),
        },
    }
}

/// Whether a parser that found `before` in the lexer, left `after` there and
/// handed back `result` did what `outcome` asks for: on success the value is
/// the one built and the lexer has moved past the tokens taken; on failure
/// the error is the one raised, and the lexer is left anywhere.
pub open spec fn parses<T>(
    outcome: Parsed<T>,
    before: Stream,
    after: Stream,
    result: Result<T, ErrorView>,
) -> bool {
    match outcome {
        Ok((value, taken)) => result == Ok::<T, ErrorView>(value) && after == before.skip(taken),
        Err(error) => result == Err::<T, ErrorView>(error),
    }
}

/// The number of tokens that a rule has before it: those left in the lexer
/// and the one it is given, unless that one is the end of the source.
pub open spec fn weight(s: Stream, initial: Option<Token>) -> nat {
    match initial {
        Some(token) => if token.lexeme is EndOfFile {
            s.len()
        } else {
            s.len() + 1
        },
        None => s.len(),
    }
}

/// The outcome of a rule that lists the statements of a block, after the
/// statements of `prefix` have been listed and `taken` tokens taken.
pub open spec fn extended_block(
    prefix: Seq<StatementView>,
    taken: nat,
    outcome: Parsed<BlockView>,
) -> Parsed<BlockView> {
    match outcome {
        Ok((more, count)) => Ok(
            (BlockView { statements: prefix + more.statements }, taken + count),
        ),
        Err(error) => Err(error),
    }
}

/// A statement that a rule lists first may as well have been listed before it ran.
pub proof fn lemma_extended_block(
    prefix: Seq<StatementView>,
    taken: nat,
    item: StatementView,
    step: nat,
    outcome: Parsed<BlockView>,
)
    ensures
        extended_block(
            prefix,
            taken,
            match outcome {
                Ok((more, count)) => Ok(
                    (BlockView { statements: seq![item] + more.statements }, step + count),
                ),
                Err(error) => Err(error),
            },
        ) == extended_block(prefix.push(item), taken + step, outcome),
{
    match outcome {
        Ok((more, count)) => {
            assert(prefix + (seq![item] + more.statements) =~= prefix.push(item)
                + more.statements);
        },
        Err(error) => {},
    }
}

/// The outcome of the rule that lists the cases of a switch, after the
/// cases of `prefix` have been listed and `taken` tokens taken.
pub open spec fn extended_cases(
    prefix: Seq<CaseView>,
    taken: nat,
    outcome: Parsed<(Seq<CaseView>, Option<BlockView>)>,
) -> Parsed<(Seq<CaseView>, Option<BlockView>)> {
    match outcome {
        Ok(((more, default), count)) => Ok(((prefix + more, default), taken + count)),
        Err(error) => Err(error),
    }
}

/// A case that the rule lists first may as well have been listed before it ran.
pub proof fn lemma_extended_cases(
    prefix: Seq<CaseView>,
    taken: nat,
    item: CaseView,
    step: nat,
    outcome: Parsed<(Seq<CaseView>, Option<BlockView>)>,
)
    ensures
        extended_cases(
            prefix,
            taken,
            match outcome {
                Ok(((more, default), count)) => Ok(((seq![item] + more, default), step + count)),
                Err(error) => Err(error),
            },
        ) == extended_cases(prefix.push(item), taken + step, outcome),
{
    match outcome {
        Ok(((more, default), count)) => {
            assert(prefix + (seq![item] + more) =~= prefix.push(item) + more);
        },
        Err(error) => {},
    }
}

/// A block behind its `{` is the list of its items, started with the next token.
pub proof fn lemma_block_started(s: Stream)
    ensures
        block(s) == started(None, s, |first: TokenView, rest: Stream| items(first, rest)),
{
    reveal(grammar::block);
    reveal(grammar::items);
    reveal(grammar::block_statement);
}

/// Where `}` stands first, the items of a block end and nothing is taken.
pub proof fn lemma_items_end(first: TokenView, rest: Stream)
    requires
        first.lexeme == LexemeView::Symbol(Symbol::BracketCurlyRight),
    ensures
        items(first, rest) == Ok::<(BlockView, nat), ErrorView>(
            (BlockView { statements: Seq::empty() }, 0),
        ),
{
    reveal(grammar::items);
}

/// Where another token stands first, an item follows, and behind it the
/// rest of the block.
pub proof fn lemma_items_step(first: TokenView, rest: Stream)
    requires
        first.lexeme != LexemeView::Symbol(Symbol::BracketCurlyRight),
    ensures
        items(first, rest) == (match grammar::block_statement(first, rest) {
            Err(error) => Err(error),
            Ok((statement, taken)) => match started(
                None,
                rest.skip(taken),
                |first: TokenView, rest: Stream| items(first, rest),
            ) {
                Err(error) => Err(error),
                Ok((more, count)) => Ok(
                    (BlockView { statements: seq![statement] + more.statements }, taken + count),
                ),
            },
        }),
{
    reveal(grammar::items);
    reveal(grammar::block);
    reveal(grammar::block_statement);
    match grammar::block_statement(first, rest) {
        Ok((statement, taken)) => {
            lemma_block_started(rest.skip(taken));
        },
        Err(error) => {},
    }
}

/// The model of a list that a rule hands back.
pub open spec fn list_view<T: View>(result: Result<Vec<T>, Error>) -> Result<Seq<T::V>, ErrorView> {
    match result {
        Ok(list) => Ok(views(list)),
        Err(error) => Err(error@),
    }
}

/// The outcome of a rule that lists items, after the items of `prefix` have
/// been listed and `taken` tokens taken.
pub open spec fn extended<T>(prefix: Seq<T>, taken: nat, outcome: Parsed<Seq<T>>) -> Parsed<Seq<T>> {
    match outcome {
        Ok((more, count)) => Ok((prefix + more, taken + count)),
        Err(error) => Err(error),
    }
}

/// An item that a rule lists first may as well have been listed before it ran.
pub proof fn lemma_extended<T>(prefix: Seq<T>, taken: nat, item: T, step: nat, outcome: Parsed<Seq<T>>)
    ensures
        extended(
            prefix,
            taken,
            match outcome {
                Ok((more, count)) => Ok((seq![item] + more, step + count)),
                Err(error) => Err(error),
            },
        ) == extended(prefix.push(item), taken + step, outcome),
{
    match outcome {
        Ok((more, count)) => {
            assert(prefix + (seq![item] + more) =~= prefix.push(item) + more);
        },
        Err(error) => {},
    }
}

/// Shows the next token of the lexer without taking it.
pub fn peek_next(lexer: &mut Lexer) -> (result: Result<Token, Error>)
    ensures
        final(lexer)@ == old(lexer)@,
        match old(lexer)@.head() {
            Ok(token) => result matches Ok(shown) && shown@ == token,
            Err(error) => result matches Err(raised) && raised@ == ErrorView::Lexer(error),
        },
{
    match lexer.peek() {
        Ok(token) => Ok(token),
        Err(error) => Err(Error::Lexer(error)),
    }
}

/// The outcome of the rule that lists the blocks of a source, after the
/// blocks of `prefix` have been listed.
pub open spec fn extended_program(
    prefix: Seq<StatementView>,
    outcome: Result<Seq<StatementView>, ErrorView>,
) -> Result<Seq<StatementView>, ErrorView> {
    match outcome {
        Ok(more) => Ok(prefix + more),
        Err(error) => Err(error),
    }
}

/// Parses an object behind `object`; hands back the block of its code.
fn parse_object(lexer: &mut Lexer) -> (result: Result<Block, Error>)
    ensures
        parses(object(old(lexer)@), old(lexer)@, final(lexer)@, result_view(result)),
{
    let ghost s = lexer@;
    let name = match take_or_next(None, lexer) {
        Ok(token) => token,
        Err(error) => {
            return Err(error);
        },
    };
    match name.lexeme {
        Lexeme::Literal(Literal::String(_)) => {},
        _ => {
            return Err(Error::unexpected(Expected::one(Expected::Literal), name));
        },
    }
    let open = match take_or_next(None, lexer) {
        Ok(token) => token,
        Err(error) => {
            return Err(error);
        },
    };
    if !open.lexeme.is_symbol(Symbol::BracketCurlyLeft) {
        return Err(
            Error::unexpected(Expected::one(Expected::Symbol(Symbol::BracketCurlyLeft)), open),
        );
    }
    let code = match take_or_next(None, lexer) {
        Ok(token) => token,
        Err(error) => {
            return Err(error);
        },
    };
    if !code.lexeme.is_keyword(Keyword::Code) {
        return Err(Error::unexpected(Expected::one(Expected::Keyword(Keyword::Code)), code));
    }
    proof {
        s.lemma_skip_skip(1, 1);
        s.lemma_skip_skip(2, 1);
    }
    let block = match Block::parse_braced(lexer) {
        Ok(block) => block,
        Err(error) => {
            return Err(error);
        },
    };
    let ghost taken = braced(s.skip(3))->Ok_0.1;
    proof {
        s.lemma_skip_skip(3, taken);
        s.lemma_skip_skip(taken + 3, 1);
    }
    let close = match take_or_next(None, lexer) {
        Ok(token) => token,
        Err(error) => {
            return Err(error);
        },
    };
    if !close.lexeme.is_symbol(Symbol::BracketCurlyRight) {
        return Err(
            Error::unexpected(Expected::one(Expected::Symbol(Symbol::BracketCurlyRight)), close),
        );
    }
    Ok(block)
}

/// Parses what is left in the lexer as a source: blocks, each in braces or
/// in an object, up to the end of the source.
pub fn parse_program(lexer: &mut Lexer) -> (result: Result<Vec<Statement>, Error>)
    ensures
        list_view(result) == program(old(lexer)@),
{
    proof {
        reveal(grammar::program);
    }
    let ghost total = program(lexer@);
    let mut list: Vec<Statement> = Vec::new();
    proof {
        lemma_views_empty(list);
        match total {
            Ok(more) => {
                assert(Seq::<StatementView>::empty() + more =~= more);
            },
            Err(error) => {},
        }
    }
    loop
        invariant
            total == program(old(lexer)@),
            total == extended_program(views(list), program(lexer@)),
        decreases lexer@.len(),
    {
        proof {
            reveal(grammar::program);
        }
        let ghost here = lexer@;
        let ghost before = list;
        let first = match take_or_next(None, lexer) {
            Ok(token) => token,
            Err(error) => {
                return Err(error);
            },
        };
        let block = match first.lexeme {
            Lexeme::EndOfFile => {
                proof {
                    assert(views(list) + Seq::<StatementView>::empty() =~= views(list));
                }
                return Ok(list);
            },
            Lexeme::Symbol(Symbol::BracketCurlyLeft) => {
                proof {
                    lemma_block_started(here.tail());
                }
                match Block::parse(lexer, None) {
                    Ok(parsed) => {
                        proof {
                            let taken = block(here.tail())->Ok_0.1;
                            here.lemma_skip_skip(1, taken);
                        }
                        parsed
                    },
                    Err(error) => {
                        return Err(error);
                    },
                }
            },
            Lexeme::Keyword(Keyword::Object) => match parse_object(lexer) {
                Ok(block) => {
                    proof {
                        let taken = object(here.tail())->Ok_0.1;
                        here.lemma_skip_skip(1, taken);
                    }
                    block
                },
                Err(error) => {
                    return Err(error);
                },
            },
            _ => {
                return Err(
                    Error::unexpected(
                        Expected::two(
                            Expected::Symbol(Symbol::BracketCurlyLeft),
                            Expected::Keyword(Keyword::Object),
                        ),
                        first,
                    ),
                );
            },
        };
        let statement = Statement::Block(block);
        list.push(statement);
        proof {
            lemma_views_push(before, list, statement);
            match program(lexer@) {
                Ok(more) => {
                    assert(views(before) + (seq![statement@] + more) =~= views(list) + more);
                },
                Err(error) => {},
            }
        }
    }
}

/// Hands back `initial` where it is given; else takes the next token from the lexer.
pub fn take_or_next(initial: Option<Token>, lexer: &mut Lexer) -> (result: Result<Token, Error>)
    ensures
        match initial {
            Some(token) => result == Ok::<Token, Error>(token) && final(lexer)@ == old(lexer)@,
            None => match old(lexer)@.head() {
                Ok(token) => result matches Ok(taken) && taken@ == token && final(lexer)@ == old(
                    lexer,
                )@.tail(),
                Err(error) => result matches Err(raised) && raised@ == ErrorView::Lexer(error),
            },
        },
{
    match initial {
        Some(token) => Ok(token),
        None => match lexer.next() {
            Ok(token) => Ok(token),
            Err(error) => Err(Error::Lexer(error)),
        },
    }
}

/// The models of the items of `list`, in order.
pub open spec fn views<T: View>(list: Vec<T>) -> Seq<T::V> {
    Seq::new(list.len() as nat, |i: int| list[i]@)
}

/// An item added at the end of a list is added at the end of its models.
pub proof fn lemma_views_push<T: View>(before: Vec<T>, after: Vec<T>, item: T)
    requires
        after@ == before@.push(item),
    ensures
        views(after) == views(before).push(item@),
{
    assert(views(after) =~= views(before).push(item@));
}

/// A list without items has no models.
pub proof fn lemma_views_empty<T: View>(list: Vec<T>)
    requires
        list@.len() == 0,
    ensures
        views(list) == Seq::<T::V>::empty(),
{
    assert(views(list) =~= Seq::<T::V>::empty());
}

} // verus!
