//! The if-conditional statement.

use vstd::prelude::*;
use crate::error::Error;
use crate::generator::context::BOOLEAN_BITS;
use crate::generator::context::Context;
use crate::generator::error::Error as GeneratorError;
use crate::generator::ir::Label;
use crate::generator::lowering::lower_if;
use crate::generator::lowering::lowers;
use crate::generator::lowering;
use crate::lexer::Lexer;
use crate::lexer::stream::Stream;
use crate::lexer::token::Symbol;
use crate::lexer::token::Token;
use crate::lexer::token::TokenView;
use crate::parser::error::Expected;
use crate::parser::grammar::block;
use crate::parser::grammar::if_conditional;
use crate::parser::grammar;
use crate::parser::initial_view;
use crate::parser::lemma_block_started;
use crate::parser::parses;
use crate::parser::result_view;
use crate::parser::started;
use crate::parser::statement::block::Block;
use crate::parser::statement::block::BlockView;
use crate::parser::statement::expression::Expression;
use crate::parser::statement::expression::ExpressionView;
use crate::parser::take_or_next;
use crate::parser::weight;

verus! {

/// The `if` statement.
#[derive(Debug, PartialEq, Eq)]
pub struct IfConditional {
    /// The condition.
    pub condition: Expression,
    /// The block that runs where the condition holds.
    pub block: Block,
}

/// The model of an [`IfConditional`].
pub struct IfConditionalView {
    pub condition: ExpressionView,
    pub block: BlockView,
}

impl View for IfConditional {
    type V = IfConditionalView;

    open spec fn view(&self) -> IfConditionalView
        decreases self,
    {
        IfConditionalView { condition: self.condition@, block: self.block.model() }
    }
}


impl IfConditional {
    /// The element parser, which acts like a constructor. It starts with
    /// the first token of the condition.
    pub fn parse(lexer: &mut Lexer, initial: Option<Token>) -> (result: Result<IfConditional, Error>)
        ensures
            parses(
                started(
                    initial_view(initial),
                    old(lexer)@,
                    |first: TokenView, rest: Stream| if_conditional(first, rest),
                ),
                old(lexer)@,
                final(lexer)@,
                result_view(result),
            ),
        decreases weight(old(lexer)@, initial), 9nat,
    {
        proof {
            reveal(grammar::if_conditional);
        }
        let first = match take_or_next(initial, lexer) {
            Ok(token) => token,
            Err(error) => {
                return Err(error);
            },
        };
        let ghost rest = lexer@;
        let ghost head = first@;
        let condition = match Expression::parse(lexer, Some(first)) {
            Ok(condition) => condition,
            Err(error) => {
                return Err(error);
            },
        };
        let ghost taken = grammar::expression(head, rest)->Ok_0.1;
        let open = match take_or_next(None, lexer) {
            Ok(token) => token,
            Err(error) => {
                return Err(error);
            },
        };
        if !open.lexeme.is_symbol(Symbol::BracketCurlyLeft) {
            return Err(
                Error::unexpected(Expected::one(Expected::Symbol(Symbol::BracketCurlyLeft)), open),
            );
        }
        proof {
            rest.lemma_skip_skip(taken, 1);
            lemma_block_started(rest.skip(taken + 1));
        }
        let block = match Block::parse(lexer, None) {
            Ok(block) => block,
            Err(error) => {
                return Err(error);
            },
        };
        proof {
            let count = grammar::block(rest.skip(taken + 1))->Ok_0.1;
            rest.lemma_skip_skip(taken + 1, count);
            old(lexer)@.lemma_skip_skip(1, taken + 1 + count);
        }
        Ok(IfConditional { condition, block })
    }
}


impl IfConditional {
    /// Generates the conditional.
    pub fn lower(&self, context: &mut Context) -> (result: Result<(), GeneratorError>)
        requires
            old(context)@.well_formed(),
        ensures
            lowers(lower_if(old(context)@, self@), old(context)@, final(context)@, result),
        decreases self, 0nat,
    {
        proof {
            reveal(lowering::lower_if);
        }
        let value = match self.condition.lower_value(context) {
            Ok(value) => value,
            Err(error) => {
                return Err(error);
            },
        };
        let ghost tested = context@.frame;
        let condition = context.build_int_truncate(value, BOOLEAN_BITS);
        let main_block = context.append_basic_block(Label::IfMain);
        let join_block = context.append_basic_block(Label::IfJoin);
        context.build_conditional_branch(condition, main_block, join_block);
        context.set_basic_block(main_block);
        let ghost entered = context@.frame;
        match self.block.lower(context) {
            Ok(()) => {},
            Err(error) => {
                return Err(error);
            },
        }
        let ghost left = context@.frame;
        context.build_unconditional_branch(join_block);
        context.set_basic_block(join_block);
        proof {
            let before = old(context)@.frame;
            let after = context@.frame;
            assert forall|b: int|
                0 <= b < before.blocks.len() && b != before.current implies #[trigger] after.blocks[b]
                == before.blocks[b] by {
                assert(tested.blocks[b] == before.blocks[b]);
                assert(entered.blocks[b] == tested.blocks[b]);
                assert(left.blocks[b] == entered.blocks[b]);
            }
            assert forall|b: int|
                before.blocks.len() <= b < after.blocks.len() && b != after.current implies (
            #[trigger] after.blocks[b]).terminated by {
                if b < tested.blocks.len() {
                    if b != tested.current {
                        assert(tested.blocks[b].terminated);
                    }
                    assert(entered.blocks[b].terminated);
                    assert(left.blocks[b] == entered.blocks[b]);
                } else if b == main_block {
                    if left.current != main_block {
                        assert(left.blocks[entered.current as int].terminated);
                    }
                } else if b >= entered.blocks.len() {
                    if b != left.current {
                        assert(left.blocks[b].terminated);
                    }
                }
            }
            if before.current != tested.current {
                assert(tested.blocks[before.current as int].terminated);
            }
            assert(entered.blocks[tested.current as int].terminated);
            assert(entered.blocks[before.current as int].terminated);
            assert(left.blocks[before.current as int] == entered.blocks[before.current as int]);
        }
        Ok(())
    }
}

} // verus!
