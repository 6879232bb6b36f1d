//! What the parser builds does not depend on where the tokens stand: two
//! streams that give the same lexemes are parsed to the same syntax tree, or
//! both are refused.

use vstd::prelude::*;
use crate::error::ErrorView;
use crate::lexer::shift::same_lexemes;
use crate::lexer::stream::Stream;
use crate::lexer::token::Keyword;
use crate::lexer::token::LexemeView;
use crate::lexer::token::Symbol;
use crate::lexer::token::TokenView;
use crate::parser::grammar::Parsed;
use crate::parser::grammar::annotation;
use crate::parser::grammar::argument_list;
use crate::parser::grammar::arguments;
use crate::parser::grammar::assignment;
use crate::parser::grammar::block;
use crate::parser::grammar::block_statement;
use crate::parser::grammar::braced;
use crate::parser::grammar::case;
use crate::parser::grammar::cases;
use crate::parser::grammar::expression;
use crate::parser::grammar::for_loop;
use crate::parser::grammar::function_call;
use crate::parser::grammar::function_definition;
use crate::parser::grammar::identifiers;
use crate::parser::grammar::if_conditional;
use crate::parser::grammar::items;
use crate::parser::grammar::object;
use crate::parser::grammar::parameters;
use crate::parser::grammar::program;
use crate::parser::grammar::results;
use crate::parser::grammar::statement;
use crate::parser::grammar::switch;
use crate::parser::grammar::symbol;
use crate::parser::grammar::variable_declaration;
use crate::parser::statement::StatementView;
verus! {

/// Whether two outcomes of a rule are the same but for the error: both
/// built the same from as many tokens, or both failed.
pub open spec fn agree<T>(a: Parsed<T>, b: Parsed<T>) -> bool {
    match (a, b) {
        (Ok((built, taken)), Ok((other, count))) => built == other && taken == count,
        (Err(_), Err(_)) => true,
        _ => false,
    }
}

/// Whether two outcomes of the parser are the same but for the error.
pub open spec fn agree_on_tree(
    a: Result<Seq<StatementView>, ErrorView>,
    b: Result<Seq<StatementView>, ErrorView>,
) -> bool {
    match (a, b) {
        (Ok(tree), Ok(other)) => tree == other,
        (Err(_), Err(_)) => true,
        _ => false,
    }
}

/// Streams that give the same lexemes give heads of the same lexeme, or
/// neither gives one.
pub proof fn lemma_same_head(a: Stream, b: Stream)
    requires
        same_lexemes(a, b),
    ensures
        a.head() is Ok == b.head() is Ok,
        a.head() matches Ok(first) ==> (b.head() matches Ok(second) && first.lexeme
            == second.lexeme),
        a.len() == b.len(),
{
    if a.tokens.len() > 0 {
        assert(a.tokens[0].lexeme == b.tokens[0].lexeme);
    }
}

/// Streams that give the same lexemes still do so after as many reads, and
/// then give heads of the same lexeme, or neither gives one.
pub proof fn lemma_same_at(a: Stream, b: Stream, count: nat)
    requires
        same_lexemes(a, b),
    ensures
        same_lexemes(a.skip(count), b.skip(count)),
        a.skip(count).head() is Ok == b.skip(count).head() is Ok,
        a.skip(count).head() matches Ok(first) ==> (b.skip(count).head() matches Ok(second)
            && first.lexeme == second.lexeme),
        a.skip(count).len() == b.skip(count).len(),
{
    let x = a.skip(count);
    let y = b.skip(count);
    assert forall|i: int| 0 <= i < x.tokens.len() implies (#[trigger] x.tokens[i]).lexeme
        == y.tokens[i].lexeme by {
        assert(x.tokens[i] == a.tokens[i + count]);
        assert(y.tokens[i] == b.tokens[i + count]);
    }
    lemma_same_head(x, y);
}

/// A symbol is taken from both streams or from neither.
pub proof fn lemma_symbol_same(a: Stream, b: Stream, which: Symbol)
    requires
        same_lexemes(a, b),
    ensures
        agree(symbol(a, which), symbol(b, which)),
{
    lemma_same_head(a, b);
}

/// The type behind a name is read the same from both streams.
pub proof fn lemma_annotation_same(a: Stream, b: Stream, typed: bool)
    requires
        same_lexemes(a, b),
    ensures
        agree(annotation(a, typed), annotation(b, typed)),
{
    lemma_same_head(a, b);
    lemma_same_at(a, b, 1);
}

/// A list of names is read the same from both streams.
pub proof fn lemma_identifiers_same(
    first: TokenView,
    a: Stream,
    second: TokenView,
    b: Stream,
    typed: bool,
)
    requires
        first.lexeme == second.lexeme,
        same_lexemes(a, b),
    ensures
        agree(identifiers(first, a, typed), identifiers(second, b, typed)),
    decreases a.len(),
{
    reveal(identifiers);
    lemma_annotation_same(a, b, typed);
    match annotation(a, typed) {
        Ok((_, taken)) => {
            lemma_same_at(a, b, taken);
            lemma_same_at(a, b, taken + 1);
            lemma_same_at(a, b, taken + 2);
            match (a.skip(taken).head(), a.skip(taken + 1).head(), b.skip(taken + 1).head()) {
                (Ok(next), Ok(one), Ok(other)) => {
                    if next.lexeme == LexemeView::Symbol(Symbol::Comma) {
                        lemma_identifiers_same(
                            one,
                            a.skip(taken + 2),
                            other,
                            b.skip(taken + 2),
                            typed,
                        );
                    }
                },
                _ => {},
            }
        },
        Err(_) => {},
    }
}

/// The parameters of a function definition are read the same from both streams.
pub proof fn lemma_parameters_same(a: Stream, b: Stream)
    requires
        same_lexemes(a, b),
    ensures
        agree(parameters(a), parameters(b)),
{
    lemma_same_head(a, b);
    lemma_same_at(a, b, 1);
    match (a.head(), b.head()) {
        (Ok(first), Ok(second)) => {
            lemma_identifiers_same(first, a.tail(), second, b.tail(), true);
            match identifiers(first, a.tail(), true) {
                Ok((_, taken)) => {
                    lemma_same_at(a, b, taken + 1);
                },
                Err(_) => {},
            }
        },
        _ => {},
    }
}

/// The results of a function definition are read the same from both streams.
pub proof fn lemma_results_same(a: Stream, b: Stream)
    requires
        same_lexemes(a, b),
    ensures
        agree(results(a), results(b)),
{
    lemma_same_head(a, b);
    lemma_same_at(a, b, 1);
    lemma_same_at(a, b, 2);
    match (a.tail().head(), b.tail().head()) {
        (Ok(first), Ok(second)) => {
            lemma_identifiers_same(first, a.skip(2), second, b.skip(2), true);
            match identifiers(first, a.skip(2), true) {
                Ok((_, taken)) => {
                    lemma_same_at(a, b, taken + 2);
                },
                Err(_) => {},
            }
        },
        _ => {},
    }
}

/// A function call is read the same from both streams.
pub proof fn lemma_function_call_same(first: TokenView, a: Stream, second: TokenView, b: Stream)
    requires
        first.lexeme == second.lexeme,
        same_lexemes(a, b),
    ensures
        agree(function_call(first, a), function_call(second, b)),
    decreases a.len(), 2nat,
{
    reveal(function_call);
    reveal(arguments);
    lemma_same_head(a, b);
    lemma_same_at(a, b, 1);
    match a.head() {
        Ok(open) => {
            if open.lexeme == LexemeView::Symbol(Symbol::ParenthesisLeft) && first.lexeme
                is Identifier {
                lemma_arguments_same(a.tail(), b.tail());
            }
        },
        Err(_) => {},
    }
}

/// An expression is read the same from both streams.
pub proof fn lemma_expression_same(first: TokenView, a: Stream, second: TokenView, b: Stream)
    requires
        first.lexeme == second.lexeme,
        same_lexemes(a, b),
    ensures
        agree(expression(first, a), expression(second, b)),
    decreases a.len(), 3nat,
{
    reveal(expression);
    reveal(function_call);
    lemma_same_head(a, b);
    if first.lexeme is Identifier {
        match a.head() {
            Ok(next) => {
                if next.lexeme == LexemeView::Symbol(Symbol::ParenthesisLeft) {
                    lemma_function_call_same(first, a, second, b);
                }
            },
            Err(_) => {},
        }
    }
}

/// The arguments of a call are read the same from both streams.
pub proof fn lemma_argument_list_same(first: TokenView, a: Stream, second: TokenView, b: Stream)
    requires
        first.lexeme == second.lexeme,
        same_lexemes(a, b),
    ensures
        agree(argument_list(first, a), argument_list(second, b)),
    decreases a.len(), 4nat,
{
    reveal(argument_list);
    reveal(expression);
    lemma_expression_same(first, a, second, b);
    match expression(first, a) {
        Ok((_, taken)) => {
            lemma_same_at(a, b, taken);
            lemma_same_at(a, b, taken + 1);
            lemma_same_at(a, b, taken + 2);
            match (a.skip(taken).head(), a.skip(taken + 1).head(), b.skip(taken + 1).head()) {
                (Ok(next), Ok(one), Ok(other)) => {
                    if next.lexeme == LexemeView::Symbol(Symbol::Comma) {
                        lemma_argument_list_same(one, a.skip(taken + 2), other, b.skip(taken + 2));
                    }
                },
                _ => {},
            }
        },
        Err(_) => {},
    }
}

/// The arguments of a call, behind `(`, are read the same from both streams.
pub proof fn lemma_arguments_same(a: Stream, b: Stream)
    requires
        same_lexemes(a, b),
    ensures
        agree(arguments(a), arguments(b)),
    decreases a.len(), 5nat,
{
    reveal(arguments);
    reveal(argument_list);
    lemma_same_head(a, b);
    lemma_same_at(a, b, 1);
    match (a.head(), b.head()) {
        (Ok(first), Ok(second)) => {
            if first.lexeme != LexemeView::Symbol(Symbol::ParenthesisRight) {
                lemma_argument_list_same(first, a.tail(), second, b.tail());
            }
        },
        _ => {},
    }
}

/// A block is read the same from both streams.
pub proof fn lemma_block_same(a: Stream, b: Stream)
    requires
        same_lexemes(a, b),
    ensures
        agree(block(a), block(b)),
    decreases a.len(), 6nat,
{
    reveal(block);
    reveal(items);
    lemma_same_head(a, b);
    lemma_same_at(a, b, 1);
    match (a.head(), b.head()) {
        (Ok(first), Ok(second)) => {
            if !(first.lexeme is EndOfFile) {
                lemma_items_same(first, a.tail(), second, b.tail());
            }
        },
        _ => {},
    }
}

/// A block in braces is read the same from both streams.
pub proof fn lemma_braced_same(a: Stream, b: Stream)
    requires
        same_lexemes(a, b),
    ensures
        agree(braced(a), braced(b)),
    decreases a.len(), 7nat,
{
    reveal(block);
    lemma_symbol_same(a, b, Symbol::BracketCurlyLeft);
    lemma_same_at(a, b, 1);
    lemma_block_same(a.tail(), b.tail());
}

/// A case of a switch is read the same from both streams.
pub proof fn lemma_case_same(first: TokenView, a: Stream, second: TokenView, b: Stream)
    requires
        first.lexeme == second.lexeme,
        same_lexemes(a, b),
    ensures
        agree(case(first, a), case(second, b)),
    decreases a.len(), 7nat,
{
    reveal(case);
    reveal(block);
    lemma_symbol_same(a, b, Symbol::BracketCurlyLeft);
    lemma_same_at(a, b, 1);
    lemma_block_same(a.tail(), b.tail());
}

/// The cases of a switch are read the same from both streams.
pub proof fn lemma_cases_same(a: Stream, b: Stream)
    requires
        same_lexemes(a, b),
    ensures
        agree(cases(a), cases(b)),
    decreases a.len(), 8nat,
{
    reveal(cases);
    reveal(case);
    reveal(block);
    lemma_same_head(a, b);
    lemma_same_at(a, b, 1);
    lemma_same_at(a, b, 2);
    match a.head() {
        Ok(next) => {
            if next.lexeme == LexemeView::Keyword(Keyword::Case) {
                match (a.tail().head(), b.tail().head()) {
                    (Ok(first), Ok(second)) => {
                        lemma_case_same(first, a.skip(2), second, b.skip(2));
                        match case(first, a.skip(2)) {
                            Ok((_, taken)) => {
                                lemma_same_at(a, b, taken + 2);
                                lemma_cases_same(a.skip(taken + 2), b.skip(taken + 2));
                            },
                            Err(_) => {},
                        }
                    },
                    _ => {},
                }
            } else if next.lexeme == LexemeView::Keyword(Keyword::Default) {
                lemma_symbol_same(a.tail(), b.tail(), Symbol::BracketCurlyLeft);
                lemma_block_same(a.skip(2), b.skip(2));
            }
        },
        Err(_) => {},
    }
}

/// A switch is read the same from both streams.
pub proof fn lemma_switch_same(first: TokenView, a: Stream, second: TokenView, b: Stream)
    requires
        first.lexeme == second.lexeme,
        same_lexemes(a, b),
    ensures
        agree(switch(first, a), switch(second, b)),
    decreases a.len(), 9nat,
{
    reveal(switch);
    reveal(expression);
    reveal(cases);
    lemma_expression_same(first, a, second, b);
    match expression(first, a) {
        Ok((_, taken)) => {
            lemma_same_at(a, b, taken);
            lemma_cases_same(a.skip(taken), b.skip(taken));
            lemma_same_head(a.skip(taken), b.skip(taken));
        },
        Err(_) => {},
    }
}

/// A for-loop is read the same from both streams.
pub proof fn lemma_for_loop_same(first: TokenView, a: Stream, second: TokenView, b: Stream)
    requires
        first.lexeme == second.lexeme,
        same_lexemes(a, b),
    ensures
        agree(for_loop(first, a), for_loop(second, b)),
    decreases a.len(), 9nat,
{
    reveal(for_loop);
    reveal(block);
    reveal(expression);
    if first.lexeme == LexemeView::Symbol(Symbol::BracketCurlyLeft) {
        lemma_block_same(a, b);
        match block(a) {
            Ok((_, one)) => {
                lemma_same_at(a, b, one);
                lemma_same_at(a, b, one + 1);
                match (a.skip(one).head(), b.skip(one).head()) {
                    (Ok(start), Ok(other)) => {
                        lemma_expression_same(start, a.skip(one + 1), other, b.skip(one + 1));
                        match expression(start, a.skip(one + 1)) {
                            Ok((_, two)) => {
                                lemma_same_at(a, b, one + 1 + two);
                                lemma_symbol_same(
                                    a.skip(one + 1 + two),
                                    b.skip(one + 1 + two),
                                    Symbol::BracketCurlyLeft,
                                );
                                lemma_same_at(a, b, one + two + 2);
                                if symbol(a.skip(one + 1 + two), Symbol::BracketCurlyLeft) is Ok {
                                    lemma_block_same(
                                        a.skip(one + two + 2),
                                        b.skip(one + two + 2),
                                    );
                                    match block(a.skip(one + two + 2)) {
                                        Ok((_, three)) => {
                                            lemma_same_at(a, b, one + two + three + 2);
                                            lemma_symbol_same(
                                                a.skip(one + two + three + 2),
                                                b.skip(one + two + three + 2),
                                                Symbol::BracketCurlyLeft,
                                            );
                                            lemma_same_at(a, b, one + two + three + 3);
                                            if symbol(
                                                a.skip(one + two + three + 2),
                                                Symbol::BracketCurlyLeft,
                                            ) is Ok {
                                                lemma_block_same(
                                                    a.skip(one + two + three + 3),
                                                    b.skip(one + two + three + 3),
                                                );
                                            }
                                        },
                                        Err(_) => {},
                                    }
                                }
                            },
                            Err(_) => {},
                        }
                    },
                    _ => {},
                }
            },
            Err(_) => {},
        }
    }
}

/// An if-conditional is read the same from both streams.
pub proof fn lemma_if_conditional_same(first: TokenView, a: Stream, second: TokenView, b: Stream)
    requires
        first.lexeme == second.lexeme,
        same_lexemes(a, b),
    ensures
        agree(if_conditional(first, a), if_conditional(second, b)),
    decreases a.len(), 9nat,
{
    reveal(if_conditional);
    reveal(expression);
    reveal(block);
    lemma_expression_same(first, a, second, b);
    match expression(first, a) {
        Ok((_, taken)) => {
            lemma_same_at(a, b, taken);
            lemma_symbol_same(a.skip(taken), b.skip(taken), Symbol::BracketCurlyLeft);
            lemma_same_at(a, b, taken + 1);
            if symbol(a.skip(taken), Symbol::BracketCurlyLeft) is Ok {
                lemma_block_same(a.skip(taken + 1), b.skip(taken + 1));
            }
        },
        Err(_) => {},
    }
}

/// A function definition is read the same from both streams.
pub proof fn lemma_function_definition_same(
    first: TokenView,
    a: Stream,
    second: TokenView,
    b: Stream,
)
    requires
        first.lexeme == second.lexeme,
        same_lexemes(a, b),
    ensures
        agree(function_definition(first, a), function_definition(second, b)),
    decreases a.len(), 9nat,
{
    reveal(function_definition);
    reveal(block);
    lemma_symbol_same(a, b, Symbol::ParenthesisLeft);
    lemma_same_at(a, b, 1);
    lemma_parameters_same(a.tail(), b.tail());
    if first.lexeme is Identifier && symbol(a, Symbol::ParenthesisLeft) is Ok {
        match parameters(a.tail()) {
            Ok((_, taken)) => {
                lemma_same_at(a, b, taken + 1);
                lemma_results_same(a.skip(taken + 1), b.skip(taken + 1));
                match results(a.skip(taken + 1)) {
                    Ok((_, count)) => {
                        lemma_same_at(a, b, taken + count + 1);
                        lemma_results_take(a.skip(taken + 1));
                        a.lemma_skip_skip(taken + 1, count);
                        lemma_block_same(a.skip(taken + count + 1), b.skip(taken + count + 1));
                    },
                    Err(_) => {},
                }
            },
            Err(_) => {},
        }
    }
}

/// The results of a function definition take at least the `{` of the body.
pub proof fn lemma_results_take(s: Stream)
    ensures
        results(s) matches Ok((_, taken)) ==> taken >= 1 && s.len() >= 1,
{
}

/// A variable declaration is read the same from both streams.
pub proof fn lemma_variable_declaration_same(
    first: TokenView,
    a: Stream,
    second: TokenView,
    b: Stream,
)
    requires
        first.lexeme == second.lexeme,
        same_lexemes(a, b),
    ensures
        agree(variable_declaration(first, a), variable_declaration(second, b)),
    decreases a.len(), 9nat,
{
    lemma_identifiers_same(first, a, second, b, true);
    match identifiers(first, a, true) {
        Ok((_, taken)) => {
            lemma_same_at(a, b, taken);
            lemma_same_at(a, b, taken + 1);
            lemma_same_at(a, b, taken + 2);
            match (a.skip(taken + 1).head(), b.skip(taken + 1).head()) {
                (Ok(start), Ok(other)) => {
                    lemma_expression_same(start, a.skip(taken + 2), other, b.skip(taken + 2));
                },
                _ => {},
            }
        },
        Err(_) => {},
    }
}

/// An assignment is read the same from both streams.
pub proof fn lemma_assignment_same(first: TokenView, a: Stream, second: TokenView, b: Stream)
    requires
        first.lexeme == second.lexeme,
        same_lexemes(a, b),
    ensures
        agree(assignment(first, a), assignment(second, b)),
    decreases a.len(), 9nat,
{
    lemma_identifiers_same(first, a, second, b, false);
    match identifiers(first, a, false) {
        Ok((_, taken)) => {
            lemma_same_at(a, b, taken);
            lemma_symbol_same(a.skip(taken), b.skip(taken), Symbol::Assignment);
            lemma_same_at(a, b, taken + 1);
            lemma_same_at(a, b, taken + 2);
            match (a.skip(taken + 1).head(), b.skip(taken + 1).head()) {
                (Ok(start), Ok(other)) => {
                    lemma_expression_same(start, a.skip(taken + 2), other, b.skip(taken + 2));
                },
                _ => {},
            }
        },
        Err(_) => {},
    }
}

/// A statement is read the same from both streams.
pub proof fn lemma_statement_same(first: TokenView, a: Stream, second: TokenView, b: Stream)
    requires
        first.lexeme == second.lexeme,
        same_lexemes(a, b),
    ensures
        agree(statement(first, a), statement(second, b)),
    decreases a.len(), 10nat,
{
    reveal(statement);
    reveal(function_definition);
    reveal(if_conditional);
    reveal(switch);
    reveal(for_loop);
    lemma_same_head(a, b);
    lemma_same_at(a, b, 1);
    match (a.head(), b.head()) {
        (Ok(start), Ok(other)) => {
            match first.lexeme {
                LexemeView::Keyword(Keyword::Function) => {
                    lemma_function_definition_same(start, a.tail(), other, b.tail());
                },
                LexemeView::Keyword(Keyword::Let) => {
                    lemma_variable_declaration_same(start, a.tail(), other, b.tail());
                },
                LexemeView::Keyword(Keyword::If) => {
                    lemma_if_conditional_same(start, a.tail(), other, b.tail());
                },
                LexemeView::Keyword(Keyword::Switch) => {
                    lemma_switch_same(start, a.tail(), other, b.tail());
                },
                LexemeView::Keyword(Keyword::For) => {
                    lemma_for_loop_same(start, a.tail(), other, b.tail());
                },
                _ => {},
            }
        },
        _ => {},
    }
}

/// An item of a block is read the same from both streams.
pub proof fn lemma_block_statement_same(first: TokenView, a: Stream, second: TokenView, b: Stream)
    requires
        first.lexeme == second.lexeme,
        same_lexemes(a, b),
    ensures
        agree(block_statement(first, a), block_statement(second, b)),
    decreases a.len(), 11nat,
{
    reveal(block_statement);
    reveal(expression);
    reveal(block);
    reveal(statement);
    lemma_same_head(a, b);
    match first.lexeme {
        LexemeView::Identifier(_) => {
            lemma_assignment_same(first, a, second, b);
            lemma_expression_same(first, a, second, b);
        },
        LexemeView::Symbol(Symbol::BracketCurlyLeft) => {
            lemma_block_same(a, b);
        },
        LexemeView::Literal(_) => {
            lemma_expression_same(first, a, second, b);
        },
        LexemeView::Keyword(Keyword::True) => {
            lemma_expression_same(first, a, second, b);
        },
        LexemeView::Keyword(Keyword::False) => {
            lemma_expression_same(first, a, second, b);
        },
        LexemeView::Keyword(_) => {
            lemma_statement_same(first, a, second, b);
        },
        _ => {},
    }
}

/// The items of a block are read the same from both streams.
pub proof fn lemma_items_same(first: TokenView, a: Stream, second: TokenView, b: Stream)
    requires
        first.lexeme == second.lexeme,
        same_lexemes(a, b),
    ensures
        agree(items(first, a), items(second, b)),
    decreases a.len(), 12nat,
{
    reveal(items);
    reveal(block_statement);
    reveal(block);
    if first.lexeme != LexemeView::Symbol(Symbol::BracketCurlyRight) {
        lemma_block_statement_same(first, a, second, b);
        match block_statement(first, a) {
            Ok((_, taken)) => {
                lemma_same_at(a, b, taken);
                lemma_block_same(a.skip(taken), b.skip(taken));
            },
            Err(_) => {},
        }
    }
}

/// An object is read the same from both streams.
pub proof fn lemma_object_same(a: Stream, b: Stream)
    requires
        same_lexemes(a, b),
    ensures
        agree(object(a), object(b)),
{
    lemma_same_head(a, b);
    lemma_same_at(a, b, 1);
    lemma_same_at(a, b, 2);
    lemma_same_at(a, b, 3);
    lemma_symbol_same(a.tail(), b.tail(), Symbol::BracketCurlyLeft);
    lemma_braced_same(a.skip(3), b.skip(3));
    match braced(a.skip(3)) {
        Ok((_, taken)) => {
            lemma_same_at(a, b, taken + 3);
            lemma_symbol_same(a.skip(taken + 3), b.skip(taken + 3), Symbol::BracketCurlyRight);
        },
        Err(_) => {},
    }
}

/// Two streams that give the same lexemes are parsed to the same syntax
/// tree, or both are refused.
pub proof fn lemma_program_same(a: Stream, b: Stream)
    requires
        same_lexemes(a, b),
    ensures
        agree_on_tree(program(a), program(b)),
    decreases a.len(),
{
    reveal(program);
    reveal(block);
    lemma_same_head(a, b);
    lemma_same_at(a, b, 1);
    match a.head() {
        Ok(first) => {
            if first.lexeme == LexemeView::Symbol(Symbol::BracketCurlyLeft) {
                lemma_block_same(a.tail(), b.tail());
                match block(a.tail()) {
                    Ok((_, taken)) => {
                        lemma_same_at(a, b, taken + 1);
                        lemma_program_same(a.skip(taken + 1), b.skip(taken + 1));
                    },
                    Err(_) => {},
                }
            } else if first.lexeme == LexemeView::Keyword(Keyword::Object) {
                lemma_object_same(a.tail(), b.tail());
                match object(a.tail()) {
                    Ok((_, taken)) => {
                        lemma_same_at(a, b, taken + 1);
                        lemma_program_same(a.skip(taken + 1), b.skip(taken + 1));
                    },
                    Err(_) => {},
                }
            }
        },
        Err(_) => {},
    }
}

} // verus!
