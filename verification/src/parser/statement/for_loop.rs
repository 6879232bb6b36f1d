//! The for-loop statement.

use vstd::prelude::*;
use crate::error::Error;
use crate::generator::context::BOOLEAN_BITS;
use crate::generator::context::Context;
use crate::generator::error::Error as GeneratorError;
use crate::generator::ir::Label;
use crate::generator::lowering::lower_for;
use crate::generator::lowering::lowers;
use crate::generator::lowering;
use crate::lexer::Lexer;
use crate::lexer::stream::Stream;
use crate::lexer::token::Symbol;
use crate::lexer::token::Token;
use crate::lexer::token::TokenView;
use crate::parser::error::Expected;
use crate::parser::grammar::block;
use crate::parser::grammar::for_loop;
use crate::parser::grammar;
use crate::parser::initial_view;
use crate::parser::lemma_block_started;
use crate::parser::parses;
use crate::parser::result_view;
use crate::parser::started;
use crate::parser::statement::block::Block;
use crate::parser::statement::block::BlockView;
use crate::parser::statement::expression::Expression;
use crate::parser::statement::expression::ExpressionView;
use crate::parser::take_or_next;
use crate::parser::weight;

verus! {

/// The `for` statement.
#[derive(Debug, PartialEq, Eq)]
pub struct ForLoop {
    /// The index variables initialization block.
    pub initializer: Block,
    /// The continue condition.
    pub condition: Expression,
    /// The index variables mutating block.
    pub finalizer: Block,
    /// The loop body.
    pub body: Block,
}

/// The model of a [`ForLoop`].
pub struct ForLoopView {
    pub initializer: BlockView,
    pub condition: ExpressionView,
    pub finalizer: BlockView,
    pub body: BlockView,
}

impl View for ForLoop {
    type V = ForLoopView;

    open spec fn view(&self) -> ForLoopView
        decreases self,
    {
        ForLoopView {
            initializer: self.initializer.model(),
            condition: self.condition@,
            finalizer: self.finalizer.model(),
            body: self.body.model(),
        }
    }
}


impl ForLoop {
    /// The element parser, which acts like a constructor. It starts with
    /// the `{` of the initializer.
    pub fn parse(lexer: &mut Lexer, initial: Option<Token>) -> (result: Result<ForLoop, Error>)
        ensures
            parses(
                started(
                    initial_view(initial),
                    old(lexer)@,
                    |first: TokenView, rest: Stream| for_loop(first, rest),
                ),
                old(lexer)@,
                final(lexer)@,
                result_view(result),
            ),
        decreases weight(old(lexer)@, initial), 9nat,
    {
        proof {
            reveal(grammar::for_loop);
        }
        let first = match take_or_next(initial, lexer) {
            Ok(token) => token,
            Err(error) => {
                return Err(error);
            },
        };
        let ghost rest = lexer@;
        if !first.lexeme.is_symbol(Symbol::BracketCurlyLeft) {
            return Err(
                Error::unexpected(Expected::one(Expected::Symbol(Symbol::BracketCurlyLeft)), first),
            );
        }
        proof {
            lemma_block_started(rest);
        }
        let initializer = match Block::parse(lexer, None) {
            Ok(block) => block,
            Err(error) => {
                return Err(error);
            },
        };
        let ghost a = grammar::block(rest)->Ok_0.1;
        proof {
            rest.lemma_skip_skip(a, 1);
        }
        let condition = match Expression::parse(lexer, None) {
            Ok(condition) => condition,
            Err(error) => {
                return Err(error);
            },
        };
        let ghost b = grammar::expression(
            rest.skip(a).head()->Ok_0,
            rest.skip(a + 1),
        )->Ok_0.1;
        proof {
            rest.lemma_skip_skip(a, b + 1);
            rest.lemma_skip_skip(a + 1, b);
            rest.lemma_skip_skip(a + 1 + b, 1);
            assert(lexer@ == rest.skip(a + 1 + b));
        }
        let finalizer = match Block::parse_braced(lexer) {
            Ok(block) => block,
            Err(error) => {
                return Err(error);
            },
        };
        let ghost c = grammar::block(rest.skip(a + b + 2))->Ok_0.1;
        proof {
            rest.lemma_skip_skip(a + 1 + b, c + 1);
            rest.lemma_skip_skip(a + b + 2, c);
            rest.lemma_skip_skip(a + b + c + 2, 1);
            assert(lexer@ == rest.skip(a + b + c + 2));
        }
        let body = match Block::parse_braced(lexer) {
            Ok(block) => block,
            Err(error) => {
                return Err(error);
            },
        };
        proof {
            let d = grammar::block(rest.skip(a + b + c + 3))->Ok_0.1;
            rest.lemma_skip_skip(a + b + c + 2, d + 1);
            rest.lemma_skip_skip(a + b + c + 3, d);
            old(lexer)@.lemma_skip_skip(1, a + b + c + d + 3);
        }
        Ok(ForLoop { initializer, condition, finalizer, body })
    }
}


impl ForLoop {
    /// Generates the loop.
    pub fn lower(&self, context: &mut Context) -> (result: Result<(), GeneratorError>)
        requires
            old(context)@.well_formed(),
        ensures
            lowers(lower_for(old(context)@, self@), old(context)@, final(context)@, result),
        decreases self, 0nat,
    {
        proof {
            reveal(lowering::lower_for);
        }
        let variables = context.frame.variables.len();
        let visible = context.visible.len();
        let ghost before = context@.frame;
        let ghost mut pending: Set<int> = Set::empty();
        match self.initializer.lower_local(context) {
            Ok(()) => {},
            Err(error) => {
                return Err(error);
            },
        }
        proof {
            context@.frame.lemma_linked_none(before);
        }

        let ghost frame = context@.frame;
        let condition_block = context.append_basic_block(Label::ForCondition);
        proof {
            frame.lemma_linked_append(before, pending, Label::ForCondition);
            pending = pending.insert(condition_block as int);
        }
        let ghost frame = context@.frame;
        let body_block = context.append_basic_block(Label::ForBody);
        proof {
            frame.lemma_linked_append(before, pending, Label::ForBody);
            pending = pending.insert(body_block as int);
        }
        let ghost frame = context@.frame;
        let increment_block = context.append_basic_block(Label::ForIncrement);
        proof {
            frame.lemma_linked_append(before, pending, Label::ForIncrement);
            pending = pending.insert(increment_block as int);
        }
        let ghost frame = context@.frame;
        let join_block = context.append_basic_block(Label::ForJoin);
        proof {
            frame.lemma_linked_append(before, pending, Label::ForJoin);
            pending = pending.insert(join_block as int);
        }

        let ghost frame = context@.frame;
        context.build_unconditional_branch(condition_block);
        proof {
            frame.lemma_linked_emit(before, pending, context@.frame);
        }
        let ghost frame = context@.frame;
        context.set_basic_block(condition_block);
        proof {
            frame.lemma_linked_enter(before, pending, condition_block);
            pending = pending.remove(condition_block as int);
        }
        let ghost frame = context@.frame;
        let value = match self.condition.lower_value(context) {
            Ok(value) => value,
            Err(error) => {
                return Err(error);
            },
        };
        proof {
            context@.frame.lemma_linked_region(frame, before, pending);
        }
        let ghost frame = context@.frame;
        let condition = context.build_int_truncate(value, BOOLEAN_BITS);
        proof {
            frame.lemma_linked_emit(before, pending, context@.frame);
        }
        let ghost frame = context@.frame;
        context.build_conditional_branch(condition, body_block, join_block);
        proof {
            frame.lemma_linked_emit(before, pending, context@.frame);
        }

        let ghost frame = context@.frame;
        context.push_loop(increment_block, join_block);
        proof {
            frame.lemma_linked_emit(before, pending, context@.frame);
        }

        let ghost frame = context@.frame;
        context.set_basic_block(body_block);
        proof {
            frame.lemma_linked_enter(before, pending, body_block);
            pending = pending.remove(body_block as int);
        }
        let ghost frame = context@.frame;
        match self.body.lower(context) {
            Ok(()) => {},
            Err(error) => {
                return Err(error);
            },
        }
        proof {
            context@.frame.lemma_linked_region(frame, before, pending);
        }
        let ghost frame = context@.frame;
        context.build_unconditional_branch(increment_block);
        proof {
            frame.lemma_linked_emit(before, pending, context@.frame);
        }

        let ghost frame = context@.frame;
        context.set_basic_block(increment_block);
        proof {
            frame.lemma_linked_enter(before, pending, increment_block);
            pending = pending.remove(increment_block as int);
        }
        let ghost frame = context@.frame;
        match self.finalizer.lower(context) {
            Ok(()) => {},
            Err(error) => {
                return Err(error);
            },
        }
        proof {
            context@.frame.lemma_linked_region(frame, before, pending);
        }
        let ghost frame = context@.frame;
        context.build_unconditional_branch(condition_block);
        proof {
            frame.lemma_linked_emit(before, pending, context@.frame);
        }

        let ghost frame = context@.frame;
        context.pop_loop();
        proof {
            frame.lemma_linked_emit(before, pending, context@.frame);
            assert(context@.frame.loops =~= old(context)@.frame.loops);
        }
        let ghost frame = context@.frame;
        context.set_basic_block(join_block);
        proof {
            frame.lemma_linked_enter(before, pending, join_block);
            pending = pending.remove(join_block as int);
            assert(pending =~= Set::empty());
            context@.frame.lemma_linked_all(before);
        }
        context.leave_scope(variables, visible);
        Ok(())
    }
}

} // verus!
