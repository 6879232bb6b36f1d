//! The function definition statement.

use vstd::prelude::*;
use crate::error::Error;
use crate::generator::context::Context;
use crate::generator::context::Frame;
use crate::generator::context::find;
use crate::generator::error::Error as GeneratorError;
use crate::generator::ir::Function;
use crate::generator::lowering::lower_function;
use crate::generator::lowering::lowers;
use crate::generator::lowering;
use crate::lexer::Lexer;
use crate::lexer::stream::Stream;
use crate::lexer::token::Lexeme;
use crate::lexer::token::Symbol;
use crate::lexer::token::Token;
use crate::lexer::token::TokenView;
use crate::parser::error::Expected;
use crate::parser::grammar::block;
use crate::parser::grammar::function_definition;
use crate::parser::grammar::identifiers;
use crate::parser::grammar::parameters;
use crate::parser::grammar::results;
use crate::parser::grammar;
use crate::parser::identifier::Identifier;
use crate::parser::identifier::IdentifierView;
use crate::parser::initial_view;
use crate::parser::lemma_block_started;
use crate::parser::lemma_views_empty;
use crate::parser::list_view;
use crate::parser::parses;
use crate::parser::result_view;
use crate::parser::started;
use crate::parser::statement::block::Block;
use crate::parser::statement::block::BlockView;
use crate::parser::statement::variable_declaration::declare_all;
use crate::parser::take_or_next;
use crate::parser::views;
use crate::parser::weight;

verus! {

/// The `function` statement.
#[derive(Debug, PartialEq, Eq)]
pub struct FunctionDefinition {
    /// The name of the function.
    pub name: String,
    /// The parameters, in order.
    pub arguments: Vec<Identifier>,
    /// The variables that hold the results, in order.
    pub result: Vec<Identifier>,
    /// The body.
    pub body: Block,
}

/// The model of a [`FunctionDefinition`].
pub struct FunctionDefinitionView {
    pub name: Seq<char>,
    pub arguments: Seq<IdentifierView>,
    pub result: Seq<IdentifierView>,
    pub body: BlockView,
}

impl View for FunctionDefinition {
    type V = FunctionDefinitionView;

    open spec fn view(&self) -> FunctionDefinitionView
        decreases self,
    {
        FunctionDefinitionView {
            name: self.name@,
            arguments: views(self.arguments),
            result: views(self.result),
            body: self.body.model(),
        }
    }
}


impl FunctionDefinition {
    /// Parses the parameters, behind `(`.
    fn parse_parameters(lexer: &mut Lexer) -> (result: Result<Vec<Identifier>, Error>)
        ensures
            parses(parameters(old(lexer)@), old(lexer)@, final(lexer)@, list_view(result)),
    {
        proof {
            reveal(grammar::identifiers);
        }
        let ghost s = lexer@;
        let first = match take_or_next(None, lexer) {
            Ok(token) => token,
            Err(error) => {
                return Err(error);
            },
        };
        if first.lexeme.is_symbol(Symbol::ParenthesisRight) {
            let list: Vec<Identifier> = Vec::new();
            proof {
                lemma_views_empty(list);
            }
            return Ok(list);
        }
        let ghost head = first@;
        let list = match Identifier::parse_typed_list(lexer, Some(first)) {
            Ok(list) => list,
            Err(error) => {
                return Err(error);
            },
        };
        let ghost taken = identifiers(head, s.tail(), true)->Ok_0.1;
        proof {
            s.lemma_skip_skip(1, taken);
            s.lemma_skip_skip(taken + 1, 1);
        }
        let close = match take_or_next(None, lexer) {
            Ok(token) => token,
            Err(error) => {
                return Err(error);
            },
        };
        if !close.lexeme.is_symbol(Symbol::ParenthesisRight) {
            return Err(
                Error::unexpected(
                    Expected::two(
                        Expected::Symbol(Symbol::Comma),
                        Expected::Symbol(Symbol::ParenthesisRight),
                    ),
                    close,
                ),
            );
        }
        Ok(list)
    }

    /// Parses the results and the `{` of the body, behind `)`.
    fn parse_results(lexer: &mut Lexer) -> (result: Result<Vec<Identifier>, Error>)
        ensures
            parses(results(old(lexer)@), old(lexer)@, final(lexer)@, list_view(result)),
    {
        let ghost s = lexer@;
        let first = match take_or_next(None, lexer) {
            Ok(token) => token,
            Err(error) => {
                return Err(error);
            },
        };
        if first.lexeme.is_symbol(Symbol::BracketCurlyLeft) {
            let list: Vec<Identifier> = Vec::new();
            proof {
                lemma_views_empty(list);
            }
            return Ok(list);
        }
        if !first.lexeme.is_symbol(Symbol::Arrow) {
            return Err(
                Error::unexpected(
                    Expected::two(
                        Expected::Symbol(Symbol::Arrow),
                        Expected::Symbol(Symbol::BracketCurlyLeft),
                    ),
                    first,
                ),
            );
        }
        proof {
            s.lemma_skip_skip(1, 1);
        }
        let list = match Identifier::parse_typed_list(lexer, None) {
            Ok(list) => list,
            Err(error) => {
                return Err(error);
            },
        };
        let ghost taken = identifiers(s.tail().head()->Ok_0, s.skip(2), true)->Ok_0.1;
        proof {
            s.lemma_skip_skip(1, taken + 1);
            s.lemma_skip_skip(taken + 2, 1);
        }
        let open = match take_or_next(None, lexer) {
            Ok(token) => token,
            Err(error) => {
                return Err(error);
            },
        };
        if !open.lexeme.is_symbol(Symbol::BracketCurlyLeft) {
            return Err(
                Error::unexpected(
                    Expected::two(
                        Expected::Symbol(Symbol::Comma),
                        Expected::Symbol(Symbol::BracketCurlyLeft),
                    ),
                    open,
                ),
            );
        }
        Ok(list)
    }

    /// The element parser, which acts like a constructor. It starts with
    /// the name of the function.
    pub fn parse(lexer: &mut Lexer, initial: Option<Token>) -> (result: Result<
        FunctionDefinition,
        Error,
    >)
        ensures
            parses(
                started(
                    initial_view(initial),
                    old(lexer)@,
                    |first: TokenView, rest: Stream| function_definition(first, rest),
                ),
                old(lexer)@,
                final(lexer)@,
                result_view(result),
            ),
        decreases weight(old(lexer)@, initial), 9nat,
    {
        proof {
            reveal(grammar::function_definition);
        }
        let first = match take_or_next(initial, lexer) {
            Ok(token) => token,
            Err(error) => {
                return Err(error);
            },
        };
        let ghost rest = lexer@;
        let name = match first.lexeme {
            Lexeme::Identifier(name) => name,
            _ => {
                return Err(Error::unexpected(Expected::one(Expected::Identifier), first));
            },
        };
        let open = match take_or_next(None, lexer) {
            Ok(token) => token,
            Err(error) => {
                return Err(error);
            },
        };
        if !open.lexeme.is_symbol(Symbol::ParenthesisLeft) {
            return Err(
                Error::unexpected(Expected::one(Expected::Symbol(Symbol::ParenthesisLeft)), open),
            );
        }
        let arguments = match Self::parse_parameters(lexer) {
            Ok(list) => list,
            Err(error) => {
                return Err(error);
            },
        };
        let ghost taken = parameters(rest.tail())->Ok_0.1;
        proof {
            rest.lemma_skip_skip(1, taken);
        }
        let result = match Self::parse_results(lexer) {
            Ok(list) => list,
            Err(error) => {
                return Err(error);
            },
        };
        let ghost count = results(rest.skip(taken + 1))->Ok_0.1;
        proof {
            rest.lemma_skip_skip(taken + 1, count);
            lemma_block_started(rest.skip(taken + count + 1));
        }
        let body = match Block::parse(lexer, None) {
            Ok(block) => block,
            Err(error) => {
                return Err(error);
            },
        };
        proof {
            let length = grammar::block(rest.skip(taken + count + 1))->Ok_0.1;
            rest.lemma_skip_skip(taken + count + 1, length);
            old(lexer)@.lemma_skip_skip(1, taken + count + length + 1);
        }
        Ok(FunctionDefinition { name, arguments, result, body })
    }
}


impl FunctionDefinition {
    /// Generates the function.
    pub fn lower(&self, context: &mut Context) -> (result: Result<(), GeneratorError>)
        requires
            old(context)@.well_formed(),
        ensures
            lowers(lower_function(old(context)@, self@), old(context)@, final(context)@, result),
        decreases self, 0nat,
    {
        proof {
            reveal(lowering::lower_function);
        }
        let index = match find(&context.visible, &self.name) {
            Some(index) => index,
            None => {
                return Err(GeneratorError::UndeclaredFunction);
            },
        };
        if index >= context.functions.len() {
            return Err(GeneratorError::UndeclaredFunction);
        }
        let mut outer = Frame::new();
        std::mem::swap(&mut context.frame, &mut outer);
        let ghost begun = context@;
        declare_all(context, &self.arguments, None);
        let ghost middle = context@;
        declare_all(context, &self.result, None);
        proof {
            context@.lemma_grown_on(middle, begun);
        }
        let ghost middle = context@;
        match self.body.lower(context) {
            Ok(()) => {},
            Err(error) => {
                return Err(error);
            },
        }
        proof {
            context@.lemma_grown_on(middle, begun);
        }
        let exit = context.frame.return_block;
        context.build_unconditional_branch(exit);
        proof {
            let ended = context@.frame;
            assert forall|b: int| 0 <= b < ended.blocks.len() implies (
            #[trigger] ended.blocks[b]).terminated by {
                if b < begun.frame.blocks.len() && b != begun.frame.current {
                    assert(begun.frame.blocks[b].terminated);
                }
            }
        }
        std::mem::swap(&mut context.frame, &mut outer);
        let function = Function {
            name: self.name.clone(),
            parameters: self.arguments.len(),
            results: self.result.len(),
            slots: outer.slots,
            registers: outer.registers,
            blocks: outer.blocks,
            code: outer.code,
            return_block: outer.return_block,
            throw_block: outer.throw_block,
        };
        let ghost functions = context.functions;
        context.functions.set(index, function);
        proof {
            assert(views(context.functions) =~= views(functions).update(index as int, function@));
        }
        Ok(())
    }
}

} // verus!
