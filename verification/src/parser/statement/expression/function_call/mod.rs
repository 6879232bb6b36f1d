//! The function call.

pub mod context;
pub mod hash;
pub mod transaction;

use vstd::prelude::*;
use crate::error::Error;
use crate::generator::builtin::Builtin;
use crate::generator::context::Context;
use crate::generator::context::find;
use crate::generator::error::Error as GeneratorError;
use crate::generator::ir::Instruction;
use crate::generator::ir::Operand;
use crate::generator::lowering::lower_arguments;
use crate::generator::lowering::lower_call;
use crate::generator::lowering::lowers_values;
use crate::generator::lowering::push_arguments;
use crate::generator::lowering::read_results;
use crate::generator::lowering;
use crate::lexer::Lexer;
use crate::lexer::stream::Stream;
use crate::lexer::token::Lexeme;
use crate::lexer::token::Symbol;
use crate::lexer::token::Token;
use crate::lexer::token::TokenView;
use crate::parser::error::Expected;
use crate::parser::extended;
use crate::parser::grammar::argument_list;
use crate::parser::grammar::arguments;
use crate::parser::grammar::expression;
use crate::parser::grammar::function_call;
use crate::parser::grammar;
use crate::parser::initial_view;
use crate::parser::lemma_extended;
use crate::parser::lemma_views_empty;
use crate::parser::lemma_views_push;
use crate::parser::parses;
use crate::parser::result_view;
use crate::parser::started;
use crate::parser::statement::expression::Expression;
use crate::parser::statement::expression::ExpressionView;
use crate::parser::take_or_next;
use crate::parser::views;
use crate::parser::weight;

verus! {

/// A call of a function, built in or defined in the source.
#[derive(Debug, PartialEq, Eq)]
pub struct FunctionCall {
    /// The name of the function.
    pub name: String,
    /// The arguments, in order.
    pub arguments: Vec<Expression>,
}

/// The model of a [`FunctionCall`].
pub struct FunctionCallView {
    pub name: Seq<char>,
    pub arguments: Seq<ExpressionView>,
}

impl View for FunctionCall {
    type V = FunctionCallView;

    open spec fn view(&self) -> FunctionCallView
        decreases self,
    {
        FunctionCallView {
            name: self.name@,
            arguments: Seq::new(
                self.arguments.len() as nat,
                |i: int|
                    if 0 <= i < self.arguments.len() {
                        self.arguments[i].view()
                    } else {
                        arbitrary()
                    },
            ),
        }
    }
}

impl FunctionCall {
    /// The model lists the models of the arguments.
    pub proof fn lemma_view(self)
        ensures
            self@.arguments == views(self.arguments),
            self@.name == self.name@,
    {
        assert(self@.arguments =~= views(self.arguments));
    }

    /// The element parser, which acts like a constructor. It starts with
    /// the name of the function.
    pub fn parse(lexer: &mut Lexer, initial: Option<Token>) -> (result: Result<FunctionCall, Error>)
        ensures
            parses(
                started(
                    initial_view(initial),
                    old(lexer)@,
                    |first: TokenView, rest: Stream| function_call(first, rest),
                ),
                old(lexer)@,
                final(lexer)@,
                result_view(result),
            ),
        decreases weight(old(lexer)@, initial), 2nat,
    {
        proof {
            reveal(grammar::function_call);
            reveal(grammar::arguments);
            reveal(grammar::argument_list);
        }
        let ghost start = lexer@;
        let first = match take_or_next(initial, lexer) {
            Ok(token) => token,
            Err(error) => {
                return Err(error);
            },
        };
        let ghost rest = lexer@;
        let ghost head = first@;
        let name = match first.lexeme {
            Lexeme::Identifier(name) => name,
            _ => {
                return Err(Error::unexpected(Expected::one(Expected::Identifier), first));
            },
        };
        let open = match take_or_next(None, lexer) {
            Ok(token) => token,
            Err(error) => {
                return Err(error);
            },
        };
        if !open.lexeme.is_symbol(Symbol::ParenthesisLeft) {
            return Err(
                Error::unexpected(Expected::one(Expected::Symbol(Symbol::ParenthesisLeft)), open),
            );
        }
        let ghost inner = lexer@;
        let mut current = match take_or_next(None, lexer) {
            Ok(token) => token,
            Err(error) => {
                return Err(error);
            },
        };
        let mut list: Vec<Expression> = Vec::new();
        proof {
            lemma_views_empty(list);
            start.lemma_skip_skip(1, 1);
            start.lemma_skip_skip(1, 2);
            start.lemma_skip_skip(2, 1);
            rest.lemma_skip_skip(1, 1);
        }
        if current.lexeme.is_symbol(Symbol::ParenthesisRight) {
            let call = FunctionCall { name, arguments: list };
            proof {
                call.lemma_view();
            }
            return Ok(call);
        }
        let ghost mut taken: nat = 1;
        proof {
            match argument_list(current@, inner.tail()) {
                Ok((more, count)) => {
                    assert(Seq::<ExpressionView>::empty() + more =~= more);
                },
                Err(error) => {},
            }
        }
        loop
            invariant
                lexer@ == inner.skip(taken),
                arguments(inner) == extended(
                    views(list),
                    taken,
                    argument_list(current@, lexer@),
                ),
                inner.len() + 2 <= weight(old(lexer)@, initial),
                inner == rest.tail(),
                rest == (if initial is Some {
                    old(lexer)@
                } else {
                    old(lexer)@.tail()
                }),
                function_call(head, rest) == later_call(name@, arguments(inner)),
                started(
                    initial_view(initial),
                    old(lexer)@,
                    |first: TokenView, rest: Stream| function_call(first, rest),
                ) == (if initial is Some {
                    function_call(head, rest)
                } else {
                    grammar::later(1, function_call(head, rest))
                }),
            decreases lexer@.len(),
        {
            proof {
                reveal(grammar::argument_list);
                reveal(grammar::arguments);
            }
            let ghost here = lexer@;
            let ghost before = list;
            let argument = match Expression::parse(lexer, Some(current)) {
                Ok(argument) => argument,
                Err(error) => {
                    return Err(error);
                },
            };
            let ghost step = expression(current@, here)->Ok_0.1;
            proof {
                inner.lemma_skip_skip(taken, step);
                inner.lemma_skip_skip(taken, step + 1);
                inner.lemma_skip_skip(taken, step + 2);
                here.lemma_skip_skip(step, 1);
                here.lemma_skip_skip(step, 2);
                here.skip(step).lemma_skip_skip(1, 1);
                rest.lemma_skip_skip(1, taken + step + 1);
                old(lexer)@.lemma_skip_skip(1, taken + step + 2);
                old(lexer)@.lemma_skip_skip(1, 1);
                old(lexer)@.lemma_skip_skip(2, taken + step + 1);
            }
            let next = match take_or_next(None, lexer) {
                Ok(token) => token,
                Err(error) => {
                    return Err(error);
                },
            };
            if next.lexeme.is_symbol(Symbol::ParenthesisRight) {
                list.push(argument);
                let call = FunctionCall { name, arguments: list };
                proof {
                    lemma_views_push(before, list, argument);
                    assert(views(before) + seq![argument@] =~= views(list));
                    call.lemma_view();
                }
                return Ok(call);
            }
            if !next.lexeme.is_symbol(Symbol::Comma) {
                return Err(
                    Error::unexpected(
                        Expected::two(
                            Expected::Symbol(Symbol::Comma),
                            Expected::Symbol(Symbol::ParenthesisRight),
                        ),
                        next,
                    ),
                );
            }
            current = match take_or_next(None, lexer) {
                Ok(token) => token,
                Err(error) => {
                    return Err(error);
                },
            };
            list.push(argument);
            proof {
                lemma_views_push(before, list, argument);
                lemma_extended(
                    views(before),
                    taken,
                    argument@,
                    step + 2,
                    argument_list(current@, here.skip(step + 2)),
                );
                taken = taken + step + 2;
            }
        }
    }
}

/// The outcome of a call of `name` whose arguments had the outcome `outcome`.
pub open spec fn later_call(name: Seq<char>, outcome: grammar::Parsed<Seq<ExpressionView>>) -> grammar::Parsed<FunctionCallView> {
    match outcome {
        Ok((arguments, taken)) => Ok((FunctionCallView { name, arguments }, taken + 1)),
        Err(error) => Err(error),
    }
}


/// The list that holds `value` where there is one, else nothing.
pub fn values_of(value: Option<Operand>) -> (values: Vec<Operand>)
    ensures
        values@ == lowering::optional(value),
{
    match value {
        Some(value) => {
            let values = vec![value];
            assert(values@ =~= seq![value]);
            values
        },
        None => {
            let values: Vec<Operand> = Vec::new();
            assert(values@ =~= Seq::<Operand>::empty());
            values
        },
    }
}

impl FunctionCall {
    /// Generates the call of the function `index` of the module with
    /// `operands`; hands back its results.
    fn lower_invocation(context: &mut Context, index: usize, operands: &Vec<Operand>) -> (values:
        Vec<Operand>)
        requires
            old(context)@.well_formed(),
            index < old(context)@.functions.len(),
        ensures
            (final(context)@, values@) == read_results(
                push_arguments(old(context)@, operands@, 0).emit(
                    Instruction::Call { function: index },
                ),
                old(context)@.functions[index as int].results as nat,
                0,
                Seq::empty(),
            ),
            final(context)@.well_formed(),
            final(context)@.grown_from(old(context)@),
    {
        let ghost start = context@;
        let mut at: usize = 0;
        while at < operands.len()
            invariant
                at <= operands.len(),
                context@.well_formed(),
                context@.grown_from(start),
                context@.functions == start.functions,
                push_arguments(start, operands@, 0) == push_arguments(
                    context@,
                    operands@,
                    at as nat,
                ),
            decreases operands.len() - at,
        {
            context.build_argument(operands[at]);
            at = at + 1;
        }
        context.build_invoke(index);
        let ghost called = context@;
        let count = context.functions[index].results;
        let mut values: Vec<Operand> = Vec::new();
        let mut at: usize = 0;
        while at < count
            invariant
                at <= count,
                context@.well_formed(),
                context@.grown_from(start),
                read_results(called, count as nat, 0, Seq::empty()) == read_results(
                    context@,
                    count as nat,
                    at as nat,
                    values@,
                ),
            decreases count - at,
        {
            let value = context.build_result(at);
            values.push(value);
            at = at + 1;
        }
        values
    }

    /// Generates the call; hands back the values that it yields.
    pub fn lower(&self, context: &mut Context) -> (result: Result<Vec<Operand>, GeneratorError>)
        requires
            old(context)@.well_formed(),
        ensures
            lowers_values(
                lower_call(old(context)@, self@),
                old(context)@,
                final(context)@,
                result,
            ),
        decreases self,
    {
        proof {
            reveal(lowering::lower_call);
            reveal(lowering::lower_arguments);
        }
        let ghost start = context@;
        let mut operands: Vec<Operand> = Vec::new();
        let mut at: usize = 0;
        proof {
            self.lemma_view();
        }
        while at < self.arguments.len()
            invariant
                at <= self.arguments.len(),
                self@.arguments == views(self.arguments),
                start == old(context)@,
                start.well_formed(),
                context@.well_formed(),
                context@.grown_from(start),
                lower_arguments(start, self@.arguments, 0, Seq::empty()) == lower_arguments(
                    context@,
                    self@.arguments,
                    at as nat,
                    operands@,
                ),
            decreases self.arguments.len() - at,
        {
            proof {
                reveal(lowering::lower_arguments);
                reveal(lowering::lower_call);
            }
            let ghost middle = context@;
            let values = match self.arguments[at].lower(context) {
                Ok(values) => values,
                Err(error) => {
                    return Err(error);
                },
            };
            proof {
                context@.lemma_grown_on(middle, start);
            }
            if values.len() != 1 {
                return Err(GeneratorError::ValueCount);
            }
            operands.push(values[0]);
            at = at + 1;
        }
        match Builtin::find(&self.name) {
            Some(builtin) => {
                if operands.len() != builtin.arguments() {
                    return Err(GeneratorError::ArgumentCount);
                }
                let value = builtin.lower(context, &operands);
                Ok(values_of(value))
            },
            None => match find(&context.visible, &self.name) {
                None => Err(GeneratorError::UndeclaredFunction),
                Some(index) => {
                    if index >= context.functions.len() {
                        return Err(GeneratorError::UndeclaredFunction);
                    }
                    if operands.len() != context.functions[index].parameters {
                        return Err(GeneratorError::ArgumentCount);
                    }
                    Ok(Self::lower_invocation(context, index, &operands))
                },
            },
        }
    }
}

} // verus!
