//! The expression.

pub mod function_call;
pub mod literal;

use vstd::prelude::*;
use crate::error::Error;
use crate::generator::context::Context;
use crate::generator::context::find;
use crate::generator::error::Error as GeneratorError;
use crate::generator::ir::AddressSpace;
use crate::generator::ir::Operand;
use crate::generator::ir::Pointer;
use crate::generator::literal::read_literal;
use crate::generator::lowering::lower_expression;
use crate::generator::lowering::lower_value;
use crate::generator::lowering::lowers_value;
use crate::generator::lowering::lowers_values;
use crate::generator::lowering;
use crate::lexer::Lexer;
use crate::lexer::stream::Stream;
use crate::lexer::token::Lexeme;
use crate::lexer::token::Symbol;
use crate::lexer::token::Token;
use crate::lexer::token::TokenView;
use crate::parser::error::Expected;
use crate::parser::grammar::expression;
use crate::parser::grammar;
use crate::parser::initial_view;
use crate::parser::parses;
use crate::parser::peek_next;
use crate::parser::result_view;
use crate::parser::started;
use crate::parser::statement::expression::function_call::FunctionCall;
use crate::parser::statement::expression::function_call::FunctionCallView;
use crate::parser::statement::expression::function_call::values_of;
use crate::parser::statement::expression::literal::Literal;
use crate::parser::take_or_next;
use crate::parser::weight;

verus! {

/// An expression: what yields values.
#[derive(Debug, PartialEq, Eq)]
pub enum Expression {
    /// A function call.
    FunctionCall(FunctionCall),
    /// The name of a variable.
    Identifier(String),
    /// A literal.
    Literal(Literal),
}

/// The model of an [`Expression`].
pub enum ExpressionView {
    FunctionCall(FunctionCallView),
    Identifier(Seq<char>),
    Literal(Seq<char>),
}

impl View for Expression {
    type V = ExpressionView;

    open spec fn view(&self) -> ExpressionView
        decreases self,
    {
        match self {
            Expression::FunctionCall(call) => ExpressionView::FunctionCall(call.view()),
            Expression::Identifier(name) => ExpressionView::Identifier(name@),
            Expression::Literal(literal) => ExpressionView::Literal(literal@),
        }
    }
}

impl Expression {
    /// The element parser, which acts like a constructor.
    pub fn parse(lexer: &mut Lexer, initial: Option<Token>) -> (result: Result<Expression, Error>)
        ensures
            parses(
                started(
                    initial_view(initial),
                    old(lexer)@,
                    |first: TokenView, rest: Stream| expression(first, rest),
                ),
                old(lexer)@,
                final(lexer)@,
                result_view(result),
            ),
        decreases weight(old(lexer)@, initial), 3nat,
    {
        proof {
            reveal(grammar::expression);
        }
        let first = match take_or_next(initial, lexer) {
            Ok(token) => token,
            Err(error) => {
                return Err(error);
            },
        };
        proof {
            lexer@.lemma_skip_nothing();
            old(lexer)@.lemma_skip_skip(1, 0);
        }
        let ghost rest = lexer@;
        let ghost head = first@;
        match first.lexeme {
            Lexeme::Identifier(name) => {
                let next = match peek_next(lexer) {
                    Ok(token) => token,
                    Err(error) => {
                        return Err(error);
                    },
                };
                if next.lexeme.is_symbol(Symbol::ParenthesisLeft) {
                    let again = Token {
                        location: first.location,
                        lexeme: Lexeme::Identifier(name),
                        length: first.length,
                    };
                    match FunctionCall::parse(lexer, Some(again)) {
                        Ok(call) => {
                            proof {
                                let taken = grammar::function_call(head, rest)->Ok_0.1;
                                old(lexer)@.lemma_skip_skip(1, taken);
                            }
                            Ok(Expression::FunctionCall(call))
                        },
                        Err(error) => Err(error),
                    }
                } else {
                    Ok(Expression::Identifier(name))
                }
            },
            _ => match Literal::from_lexeme(&first.lexeme) {
                Some(literal) => Ok(Expression::Literal(literal)),
                None => Err(
                    Error::unexpected(Expected::two(Expected::Identifier, Expected::Literal), first),
                ),
            },
        }
    }
}


impl Expression {
    /// Generates the expression; hands back the values that it yields.
    pub fn lower(&self, context: &mut Context) -> (result: Result<Vec<Operand>, GeneratorError>)
        requires
            old(context)@.well_formed(),
        ensures
            lowers_values(
                lower_expression(old(context)@, self@),
                old(context)@,
                final(context)@,
                result,
            ),
        decreases self,
    {
        proof {
            reveal(lowering::lower_expression);
        }
        match self {
            Expression::FunctionCall(call) => call.lower(context),
            Expression::Identifier(name) => match find(&context.frame.variables, name) {
                None => Err(GeneratorError::UndeclaredVariable),
                Some(slot) => {
                    let pointer = Pointer {
                        space: AddressSpace::Stack,
                        offset: Operand::small(slot as u64),
                    };
                    let value = context.build_load(pointer);
                    Ok(values_of(Some(value)))
                },
            },
            Expression::Literal(literal) => match read_literal(&literal.value) {
                None => Err(GeneratorError::InvalidLiteral),
                Some(word) => Ok(values_of(Some(Operand::Constant(word)))),
            },
        }
    }

    /// Generates the expression, which must yield one value; hands back that value.
    pub fn lower_value(&self, context: &mut Context) -> (result: Result<Operand, GeneratorError>)
        requires
            old(context)@.well_formed(),
        ensures
            lowers_value(
                lower_value(old(context)@, self@),
                old(context)@,
                final(context)@,
                result,
            ),
    {
        match self.lower(context) {
            Err(error) => Err(error),
            Ok(values) => if values.len() != 1 {
                Err(GeneratorError::ValueCount)
            } else {
                Ok(values[0])
            },
        }
    }
}

} // verus!
