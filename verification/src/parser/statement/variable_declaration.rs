//! The variable declaration statement.

use vstd::prelude::*;
use crate::error::Error;
use crate::generator::context::Context;
use crate::generator::error::Error as GeneratorError;
use crate::generator::ir::Operand;
use crate::generator::lowering::declare_variables;
use crate::generator::lowering::lower_declaration;
use crate::generator::lowering::lowers;
use crate::lexer::Lexer;
use crate::lexer::stream::Stream;
use crate::lexer::token::Symbol;
use crate::lexer::token::Token;
use crate::lexer::token::TokenView;
use crate::parser::grammar::expression;
use crate::parser::grammar::identifiers;
use crate::parser::grammar::variable_declaration;
use crate::parser::grammar;
use crate::parser::identifier::Identifier;
use crate::parser::identifier::IdentifierView;
use crate::parser::initial_view;
use crate::parser::parses;
use crate::parser::peek_next;
use crate::parser::result_view;
use crate::parser::started;
use crate::parser::statement::expression::Expression;
use crate::parser::statement::expression::ExpressionView;
use crate::parser::take_or_next;
use crate::parser::views;

verus! {

/// The `let` statement.
#[derive(Debug, PartialEq, Eq)]
pub struct VariableDeclaration {
    /// The variables that are declared, in order.
    pub bindings: Vec<Identifier>,
    /// The expression that yields their first values, where one is given.
    pub expression: Option<Expression>,
}

/// The model of a [`VariableDeclaration`].
pub struct VariableDeclarationView {
    pub bindings: Seq<IdentifierView>,
    pub expression: Option<ExpressionView>,
}

impl View for VariableDeclaration {
    type V = VariableDeclarationView;

    open spec fn view(&self) -> VariableDeclarationView {
        VariableDeclarationView {
            bindings: views(self.bindings),
            expression: match self.expression {
                Some(expression) => Some(expression@),
                None => None,
            },
        }
    }
}


impl VariableDeclaration {
    /// The element parser, which acts like a constructor. It starts with
    /// the first name.
    pub fn parse(lexer: &mut Lexer, initial: Option<Token>) -> (result: Result<
        VariableDeclaration,
        Error,
    >)
        ensures
            parses(
                started(
                    initial_view(initial),
                    old(lexer)@,
                    |first: TokenView, rest: Stream| variable_declaration(first, rest),
                ),
                old(lexer)@,
                final(lexer)@,
                result_view(result),
            ),
    {
        let first = match take_or_next(initial, lexer) {
            Ok(token) => token,
            Err(error) => {
                return Err(error);
            },
        };
        let ghost rest = lexer@;
        let ghost head = first@;
        let bindings = match Identifier::parse_typed_list(lexer, Some(first)) {
            Ok(bindings) => bindings,
            Err(error) => {
                return Err(error);
            },
        };
        let ghost taken = identifiers(head, rest, true)->Ok_0.1;
        let next = match peek_next(lexer) {
            Ok(token) => token,
            Err(error) => {
                return Err(error);
            },
        };
        proof {
            old(lexer)@.lemma_skip_skip(1, taken);
        }
        if !next.lexeme.is_symbol(Symbol::Assignment) {
            return Ok(VariableDeclaration { bindings, expression: None });
        }
        let _ = take_or_next(None, lexer);
        proof {
            rest.lemma_skip_skip(taken, 1);
            rest.lemma_skip_skip(taken + 1, 1);
        }
        let expression = match Expression::parse(lexer, None) {
            Ok(expression) => expression,
            Err(error) => {
                return Err(error);
            },
        };
        proof {
            let count = grammar::expression(rest.skip(taken + 1).head()->Ok_0, rest.skip(taken + 2))->Ok_0.1;
            rest.lemma_skip_skip(taken + 1, count + 1);
            old(lexer)@.lemma_skip_skip(1, taken + 2 + count);
        }
        Ok(VariableDeclaration { bindings, expression: Some(expression) })
    }
}


/// Makes the variables `bindings` and brings them into scope in their
/// order. Where `values` are given, each variable is set to the value at
/// its place.
pub fn declare_all(context: &mut Context, bindings: &Vec<Identifier>, values: Option<&Vec<Operand>>)
    requires
        old(context)@.well_formed(),
        values matches Some(list) ==> list@.len() == bindings@.len(),
    ensures
        final(context)@ == declare_variables(
            old(context)@,
            views(*bindings),
            match values {
                Some(list) => Some(list@),
                None => None,
            },
            0,
        ),
        final(context)@.well_formed(),
        final(context)@.grown_from(old(context)@),
        final(context)@.functions == old(context)@.functions,
        final(context)@.visible == old(context)@.visible,
{
    let ghost start = context@;
    let ghost given = match values {
        Some(list) => Some(list@),
        None => None,
    };
    let mut at: usize = 0;
    while at < bindings.len()
        invariant
            at <= bindings.len(),
            values matches Some(list) ==> list@.len() == bindings@.len(),
            given == (match values {
                Some(list) => Some(list@),
                None => None::<Seq<Operand>>,
            }),
            context@.well_formed(),
            context@.grown_from(start),
            context@.functions == start.functions,
            context@.visible == start.visible,
            declare_variables(start, views(*bindings), given, 0) == declare_variables(
                context@,
                views(*bindings),
                given,
                at as nat,
            ),
        decreases bindings.len() - at,
    {
        let slot = context.frame.slots;
        let pointer = context.build_alloca();
        match values {
            Some(list) => {
                context.build_store(pointer, list[at]);
            },
            None => {},
        }
        context.bind_variable(&bindings[at].name, slot);
        at = at + 1;
    }
}

impl VariableDeclaration {
    /// Generates the declaration.
    pub fn lower(&self, context: &mut Context) -> (result: Result<(), GeneratorError>)
        requires
            old(context)@.well_formed(),
        ensures
            lowers(
                lower_declaration(old(context)@, self@),
                old(context)@,
                final(context)@,
                result,
            ),
    {
        match &self.expression {
            None => {
                declare_all(context, &self.bindings, None);
                Ok(())
            },
            Some(expression) => {
                let values = match expression.lower(context) {
                    Ok(values) => values,
                    Err(error) => {
                        return Err(error);
                    },
                };
                if values.len() != self.bindings.len() {
                    return Err(GeneratorError::ValueCount);
                }
                declare_all(context, &self.bindings, Some(&values));
                Ok(())
            },
        }
    }
}

} // verus!
