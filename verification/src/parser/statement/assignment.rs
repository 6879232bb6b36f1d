//! The assignment statement.

use vstd::prelude::*;
use crate::error::Error;
use crate::generator::context::Context;
use crate::generator::context::find;
use crate::generator::error::Error as GeneratorError;
use crate::generator::ir::AddressSpace;
use crate::generator::ir::Operand;
use crate::generator::ir::Pointer;
use crate::generator::lowering::assign_variables;
use crate::generator::lowering::lower_assignment;
use crate::generator::lowering::lowers;
use crate::lexer::Lexer;
use crate::lexer::stream::Stream;
use crate::lexer::token::Symbol;
use crate::lexer::token::Token;
use crate::lexer::token::TokenView;
use crate::parser::error::Expected;
use crate::parser::grammar::assignment;
use crate::parser::grammar::expression;
use crate::parser::grammar::identifiers;
use crate::parser::grammar;
use crate::parser::identifier::Identifier;
use crate::parser::identifier::IdentifierView;
use crate::parser::initial_view;
use crate::parser::parses;
use crate::parser::result_view;
use crate::parser::started;
use crate::parser::statement::expression::Expression;
use crate::parser::statement::expression::ExpressionView;
use crate::parser::take_or_next;
use crate::parser::views;

verus! {

/// The `:=` statement that gives new values to variables already declared.
#[derive(Debug, PartialEq, Eq)]
pub struct Assignment {
    /// The variables that are assigned to, in order.
    pub bindings: Vec<Identifier>,
    /// The expression that yields the values.
    pub initializer: Expression,
}

/// The model of an [`Assignment`].
pub struct AssignmentView {
    pub bindings: Seq<IdentifierView>,
    pub initializer: ExpressionView,
}

impl View for Assignment {
    type V = AssignmentView;

    open spec fn view(&self) -> AssignmentView {
        AssignmentView { bindings: views(self.bindings), initializer: self.initializer@ }
    }
}


impl Assignment {
    /// The element parser, which acts like a constructor. It starts with
    /// the first name.
    pub fn parse(lexer: &mut Lexer, initial: Option<Token>) -> (result: Result<Assignment, Error>)
        ensures
            parses(
                started(
                    initial_view(initial),
                    old(lexer)@,
                    |first: TokenView, rest: Stream| assignment(first, rest),
                ),
                old(lexer)@,
                final(lexer)@,
                result_view(result),
            ),
    {
        let first = match take_or_next(initial, lexer) {
            Ok(token) => token,
            Err(error) => {
                return Err(error);
            },
        };
        let ghost rest = lexer@;
        let ghost head = first@;
        let bindings = match Identifier::parse_list(lexer, Some(first)) {
            Ok(bindings) => bindings,
            Err(error) => {
                return Err(error);
            },
        };
        let ghost taken = identifiers(head, rest, false)->Ok_0.1;
        let sign = match take_or_next(None, lexer) {
            Ok(token) => token,
            Err(error) => {
                return Err(error);
            },
        };
        if !sign.lexeme.is_symbol(Symbol::Assignment) {
            return Err(Error::unexpected(Expected::one(Expected::Symbol(Symbol::Assignment)), sign));
        }
        proof {
            rest.lemma_skip_skip(taken, 1);
            rest.lemma_skip_skip(taken + 1, 1);
        }
        let initializer = match Expression::parse(lexer, None) {
            Ok(expression) => expression,
            Err(error) => {
                return Err(error);
            },
        };
        proof {
            let count = grammar::expression(rest.skip(taken + 1).head()->Ok_0, rest.skip(taken + 2))->Ok_0.1;
            rest.lemma_skip_skip(taken + 1, count + 1);
            old(lexer)@.lemma_skip_skip(1, taken + 2 + count);
        }
        Ok(Assignment { bindings, initializer })
    }
}


impl Assignment {
    /// Generates the assignment.
    pub fn lower(&self, context: &mut Context) -> (result: Result<(), GeneratorError>)
        requires
            old(context)@.well_formed(),
        ensures
            lowers(
                lower_assignment(old(context)@, self@),
                old(context)@,
                final(context)@,
                result,
            ),
    {
        let values = match self.initializer.lower(context) {
            Ok(values) => values,
            Err(error) => {
                return Err(error);
            },
        };
        if values.len() != self.bindings.len() {
            return Err(GeneratorError::ValueCount);
        }
        let ghost ready = context@;
        let mut at: usize = 0;
        while at < self.bindings.len()
            invariant
                at <= self.bindings.len(),
                values@.len() == self.bindings@.len(),
                context@.well_formed(),
                context@.grown_from(old(context)@),
                lower_assignment(old(context)@, self@) == assign_variables(
                    context@,
                    views(self.bindings),
                    values@,
                    at as nat,
                ),
            decreases self.bindings.len() - at,
        {
            let slot = match find(&context.frame.variables, &self.bindings[at].name) {
                Some(slot) => slot,
                None => {
                    return Err(GeneratorError::UndeclaredVariable);
                },
            };
            let pointer = Pointer {
                space: AddressSpace::Stack,
                offset: Operand::small(slot as u64),
            };
            context.build_store(pointer, values[at]);
            at = at + 1;
        }
        Ok(())
    }
}

} // verus!
