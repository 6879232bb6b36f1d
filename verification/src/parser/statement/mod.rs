//! The block statement.

pub mod assignment;
pub mod block;
pub mod expression;
pub mod for_loop;
pub mod function_definition;
pub mod if_conditional;
pub mod switch;
pub mod variable_declaration;

use vstd::prelude::*;
use crate::error::Error;
use crate::generator::context::Context;
use crate::generator::error::Error as GeneratorError;
use crate::generator::lowering::lower_statement;
use crate::generator::lowering::lowers;
use crate::generator::lowering;
use crate::lexer::Lexer;
use crate::lexer::stream::Stream;
use crate::lexer::token::Keyword;
use crate::lexer::token::Lexeme;
use crate::lexer::token::Token;
use crate::lexer::token::TokenView;
use crate::parser::error::Expected;
use crate::parser::grammar::statement;
use crate::parser::grammar;
use crate::parser::initial_view;
use crate::parser::parses;
use crate::parser::result_view;
use crate::parser::started;
use crate::parser::statement::assignment::Assignment;
use crate::parser::statement::assignment::AssignmentView;
use crate::parser::statement::block::Block;
use crate::parser::statement::block::BlockView;
use crate::parser::statement::expression::Expression;
use crate::parser::statement::expression::ExpressionView;
use crate::parser::statement::for_loop::ForLoop;
use crate::parser::statement::for_loop::ForLoopView;
use crate::parser::statement::function_definition::FunctionDefinition;
use crate::parser::statement::function_definition::FunctionDefinitionView;
use crate::parser::statement::if_conditional::IfConditional;
use crate::parser::statement::if_conditional::IfConditionalView;
use crate::parser::statement::switch::Switch;
use crate::parser::statement::switch::SwitchView;
use crate::parser::statement::variable_declaration::VariableDeclaration;
use crate::parser::statement::variable_declaration::VariableDeclarationView;
use crate::parser::take_or_next;
use crate::parser::weight;

verus! {

/// The block statement.
#[derive(Debug, PartialEq, Eq)]
pub enum Statement {
    /// The code block.
    Block(Block),
    /// The expression.
    Expression(Expression),
    /// The `function` statement.
    FunctionDefinition(FunctionDefinition),
    /// The `let` statement.
    VariableDeclaration(VariableDeclaration),
    /// The `:=` existing variables reassignment statement.
    Assignment(Assignment),
    /// The `if` statement.
    IfConditional(IfConditional),
    /// The `switch` statement.
    Switch(Switch),
    /// The `for` statement.
    ForLoop(ForLoop),
    /// The `continue` statement.
    Continue,
    /// The `break` statement.
    Break,
    /// The `leave` statement.
    Leave,
}

/// The model of a [`Statement`].
pub enum StatementView {
    Block(BlockView),
    Expression(ExpressionView),
    FunctionDefinition(FunctionDefinitionView),
    VariableDeclaration(VariableDeclarationView),
    Assignment(AssignmentView),
    IfConditional(IfConditionalView),
    Switch(SwitchView),
    ForLoop(ForLoopView),
    Continue,
    Break,
    Leave,
}

impl View for Statement {
    type V = StatementView;

    open spec fn view(&self) -> StatementView
        decreases self,
    {
        match self {
            Statement::Block(block) => StatementView::Block(block.model()),
            Statement::Expression(expression) => StatementView::Expression(expression@),
            Statement::FunctionDefinition(definition) => StatementView::FunctionDefinition(
                definition.view(),
            ),
            Statement::VariableDeclaration(declaration) => StatementView::VariableDeclaration(
                declaration@,
            ),
            Statement::Assignment(assignment) => StatementView::Assignment(assignment@),
            Statement::IfConditional(conditional) => StatementView::IfConditional(
                conditional.view(),
            ),
            Statement::Switch(switch) => StatementView::Switch(switch.view()),
            Statement::ForLoop(for_loop) => StatementView::ForLoop(for_loop.view()),
            Statement::Continue => StatementView::Continue,
            Statement::Break => StatementView::Break,
            Statement::Leave => StatementView::Leave,
        }
    }
}


impl Statement {
    /// The element parser, which acts like a constructor. It starts with
    /// the keyword of the statement.
    pub fn parse(lexer: &mut Lexer, initial: Option<Token>) -> (result: Result<Statement, Error>)
        ensures
            parses(
                started(
                    initial_view(initial),
                    old(lexer)@,
                    |first: TokenView, rest: Stream| statement(first, rest),
                ),
                old(lexer)@,
                final(lexer)@,
                result_view(result),
            ),
        decreases weight(old(lexer)@, initial), 10nat,
    {
        proof {
            reveal(grammar::statement);
        }
        let first = match take_or_next(initial, lexer) {
            Ok(token) => token,
            Err(error) => {
                return Err(error);
            },
        };
        let ghost rest = lexer@;
        proof {
            rest.lemma_skip_nothing();
            old(lexer)@.lemma_skip_skip(1, 0);
            match grammar::statement(first@, rest) {
                Ok((_, taken)) => {
                    old(lexer)@.lemma_skip_skip(1, taken);
                },
                Err(_) => {},
            }
        }
        match first.lexeme {
            Lexeme::Keyword(Keyword::Function) => match FunctionDefinition::parse(lexer, None) {
                Ok(definition) => Ok(Statement::FunctionDefinition(definition)),
                Err(error) => Err(error),
            },
            Lexeme::Keyword(Keyword::Let) => match VariableDeclaration::parse(lexer, None) {
                Ok(declaration) => Ok(Statement::VariableDeclaration(declaration)),
                Err(error) => Err(error),
            },
            Lexeme::Keyword(Keyword::If) => match IfConditional::parse(lexer, None) {
                Ok(conditional) => Ok(Statement::IfConditional(conditional)),
                Err(error) => Err(error),
            },
            Lexeme::Keyword(Keyword::Switch) => match Switch::parse(lexer, None) {
                Ok(switch) => Ok(Statement::Switch(switch)),
                Err(error) => Err(error),
            },
            Lexeme::Keyword(Keyword::For) => match ForLoop::parse(lexer, None) {
                Ok(for_loop) => Ok(Statement::ForLoop(for_loop)),
                Err(error) => Err(error),
            },
            Lexeme::Keyword(Keyword::Continue) => Ok(Statement::Continue),
            Lexeme::Keyword(Keyword::Break) => Ok(Statement::Break),
            Lexeme::Keyword(Keyword::Leave) => Ok(Statement::Leave),
            _ => Err(Error::unexpected(Expected::statement_start(), first)),
        }
    }

    /// Converts the statement into a block.
    pub fn into_block(self) -> (block: Block)
        requires
            self is Block,
        ensures
            block == self->Block_0,
    {
        match self {
            Statement::Block(block) => block,
            _ => vstd::pervasive::unreached(),
        }
    }
}


impl Statement {
    /// Generates the statement.
    pub fn lower(&self, context: &mut Context) -> (result: Result<(), GeneratorError>)
        requires
            old(context)@.well_formed(),
        ensures
            lowers(lower_statement(old(context)@, self@), old(context)@, final(context)@, result),
        decreases self, 0nat,
    {
        proof {
            reveal(lowering::lower_statement);
        }
        match self {
            Statement::Block(block) => block.lower(context),
            Statement::Expression(expression) => match expression.lower(context) {
                Ok(_) => Ok(()),
                Err(error) => Err(error),
            },
            Statement::FunctionDefinition(definition) => definition.lower(context),
            Statement::VariableDeclaration(declaration) => declaration.lower(context),
            Statement::Assignment(assignment) => assignment.lower(context),
            Statement::IfConditional(conditional) => conditional.lower(context),
            Statement::Switch(switch) => switch.lower(context),
            Statement::ForLoop(for_loop) => for_loop.lower(context),
            Statement::Continue => {
                let depth = context.frame.loops.len();
                if depth == 0 {
                    return Err(GeneratorError::ContinueOutsideLoop);
                }
                let target = context.frame.loops[depth - 1].continue_block;
                context.build_unconditional_branch(target);
                Ok(())
            },
            Statement::Break => {
                let depth = context.frame.loops.len();
                if depth == 0 {
                    return Err(GeneratorError::BreakOutsideLoop);
                }
                let target = context.frame.loops[depth - 1].break_block;
                context.build_unconditional_branch(target);
                Ok(())
            },
            Statement::Leave => {
                let target = context.frame.return_block;
                context.build_unconditional_branch(target);
                Ok(())
            },
        }
    }
}

} // verus!
