//! The source code block.

use vstd::prelude::*;
use crate::error::Error;
use crate::generator::context::Context;
use crate::generator::error::Error as GeneratorError;
use crate::generator::lowering::declare_functions;
use crate::generator::lowering::lower_block;
use crate::generator::lowering::lower_local;
use crate::generator::lowering::lower_statements;
use crate::generator::lowering::lowers;
use crate::generator::lowering;
use crate::lexer::Lexer;
use crate::lexer::stream::Stream;
use crate::lexer::token::Keyword;
use crate::lexer::token::Lexeme;
use crate::lexer::token::LexemeView;
use crate::lexer::token::Symbol;
use crate::lexer::token::Token;
use crate::lexer::token::TokenView;
use crate::parser::error::Expected;
use crate::parser::extended_block;
use crate::parser::grammar::assignment;
use crate::parser::grammar::block;
use crate::parser::grammar::block_statement;
use crate::parser::grammar::expression;
use crate::parser::grammar::items;
use crate::parser::grammar::statement;
use crate::parser::grammar;
use crate::parser::initial_view;
use crate::parser::lemma_block_started;
use crate::parser::lemma_extended_block;
use crate::parser::lemma_items_end;
use crate::parser::lemma_items_step;
use crate::parser::lemma_views_empty;
use crate::parser::lemma_views_push;
use crate::parser::parses;
use crate::parser::peek_next;
use crate::parser::result_view;
use crate::parser::started;
use crate::parser::statement::Statement;
use crate::parser::statement::StatementView;
use crate::parser::statement::assignment::Assignment;
use crate::parser::statement::expression::Expression;
use crate::parser::statement::expression::literal::Literal;
use crate::parser::take_or_next;
use crate::parser::views;
use crate::parser::weight;

verus! {

/// A block: the statements between `{` and `}`, in order.
#[derive(Debug, PartialEq, Eq)]
pub struct Block {
    /// The block statements.
    pub statements: Vec<Statement>,
}

/// The model of a [`Block`].
pub struct BlockView {
    pub statements: Seq<StatementView>,
}

impl Block {
    /// The model of the block.
    pub open spec fn model(&self) -> BlockView
        decreases self,
    {
        BlockView {
            statements: Seq::new(
                self.statements.len() as nat,
                |i: int|
                    if 0 <= i < self.statements.len() {
                        self.statements[i].view()
                    } else {
                        arbitrary()
                    },
            ),
        }
    }
}

impl View for Block {
    type V = BlockView;

    open spec fn view(&self) -> BlockView {
        self.model()
    }
}

/// The kinds of tokens that a block tells apart where an item starts.
#[derive(Debug, Clone, Copy, PartialEq, Eq, Structural)]
pub enum Start {
    /// `}`: the block ends.
    End,
    /// `{`: a block.
    Block,
    /// A name: an assignment or an expression.
    Name,
    /// A literal: an expression.
    Literal,
    /// A keyword: a statement.
    Keyword,
    /// Anything else: an error.
    Other,
}

impl Start {
    /// The kind of the token that holds `lexeme`.
    pub open spec fn of(lexeme: LexemeView) -> Start {
        match lexeme {
            LexemeView::Symbol(Symbol::BracketCurlyRight) => Start::End,
            LexemeView::Symbol(Symbol::BracketCurlyLeft) => Start::Block,
            LexemeView::Identifier(_) => Start::Name,
            LexemeView::Literal(_) => Start::Literal,
            LexemeView::Keyword(Keyword::True) => Start::Literal,
            LexemeView::Keyword(Keyword::False) => Start::Literal,
            LexemeView::Keyword(_) => Start::Keyword,
            _ => Start::Other,
        }
    }

    /// Tells the kind of the token that holds `lexeme`.
    pub fn classify(lexeme: &Lexeme) -> (start: Start)
        ensures
            start == Start::of(lexeme@),
    {
        match lexeme {
            Lexeme::Symbol(Symbol::BracketCurlyRight) => Start::End,
            Lexeme::Symbol(Symbol::BracketCurlyLeft) => Start::Block,
            Lexeme::Identifier(_) => Start::Name,
            Lexeme::Literal(_) => Start::Literal,
            Lexeme::Keyword(Keyword::True) => Start::Literal,
            Lexeme::Keyword(Keyword::False) => Start::Literal,
            Lexeme::Keyword(_) => Start::Keyword,
            _ => Start::Other,
        }
    }
}

impl Block {
    /// The model lists the models of the statements.
    pub proof fn lemma_view(self)
        ensures
            self@.statements == views(self.statements),
    {
        reveal_with_fuel(Block::model, 2);
        assert(self@.statements =~= views(self.statements));
    }

    /// Parses one item of a block, which starts with `first`.
    fn parse_item(lexer: &mut Lexer, first: Token, start: Start) -> (result: Result<
        Statement,
        Error,
    >)
        requires
            start == Start::of(first@.lexeme),
            start != Start::End,
        ensures
            parses(
                block_statement(first@, old(lexer)@),
                old(lexer)@,
                final(lexer)@,
                result_view(result),
            ),
            result is Ok ==> !(first@.lexeme is EndOfFile),
        decreases weight(old(lexer)@, Some(first)), 11nat,
    {
        proof {
            reveal(grammar::block_statement);
        }
        proof {
            lemma_block_started(lexer@);
        }
        match start {
            Start::Name => {
                let next = match peek_next(lexer) {
            Ok(token) => token,
            Err(error) => {
                return Err(error);
            },
        };
                if next.lexeme.is_symbol(Symbol::Assignment) || next.lexeme.is_symbol(
                    Symbol::Comma,
                ) {
                    match Assignment::parse(lexer, Some(first)) {
                        Ok(assignment) => Ok(Statement::Assignment(assignment)),
                        Err(error) => Err(error),
                    }
                } else {
                    match Expression::parse(lexer, Some(first)) {
                        Ok(expression) => Ok(Statement::Expression(expression)),
                        Err(error) => Err(error),
                    }
                }
            },
            Start::Block => match Block::parse(lexer, None) {
                Ok(block) => Ok(Statement::Block(block)),
                Err(error) => Err(error),
            },
            Start::Literal => match Expression::parse(lexer, Some(first)) {
                Ok(expression) => Ok(Statement::Expression(expression)),
                Err(error) => Err(error),
            },
            Start::Keyword => Statement::parse(lexer, Some(first)),
            _ => Err(Error::unexpected(Expected::block_item_start(), first)),
        }
    }

    /// Parses `{` and the block behind it.
    pub fn parse_braced(lexer: &mut Lexer) -> (result: Result<Block, Error>)
        ensures
            parses(
                grammar::braced(old(lexer)@),
                old(lexer)@,
                final(lexer)@,
                result_view(result),
            ),
        decreases weight(old(lexer)@, None), 6nat,
    {
        let open = match take_or_next(None, lexer) {
            Ok(token) => token,
            Err(error) => {
                return Err(error);
            },
        };
        if !open.lexeme.is_symbol(Symbol::BracketCurlyLeft) {
            return Err(
                Error::unexpected(Expected::one(Expected::Symbol(Symbol::BracketCurlyLeft)), open),
            );
        }
        proof {
            lemma_block_started(old(lexer)@.tail());
        }
        match Block::parse(lexer, None) {
            Ok(block) => {
                proof {
                    let taken = grammar::block(old(lexer)@.tail())->Ok_0.1;
                    old(lexer)@.lemma_skip_skip(1, taken);
                }
                Ok(block)
            },
            Err(error) => Err(error),
        }
    }

    /// Parses a block behind its `{`: the items up to the `}` that closes
    /// it. Where `initial` is given, it is the first token behind the `{`.
    pub fn parse(lexer: &mut Lexer, initial: Option<Token>) -> (result: Result<Block, Error>)
        ensures
            parses(
                started(
                    initial_view(initial),
                    old(lexer)@,
                    |first: TokenView, rest: Stream| items(first, rest),
                ),
                old(lexer)@,
                final(lexer)@,
                result_view(result),
            ),
        decreases weight(old(lexer)@, initial), 12nat,
    {
        let ghost total = started(
            initial_view(initial),
            lexer@,
            |first: TokenView, rest: Stream| items(first, rest),
        );
        let mut statements: Vec<Statement> = Vec::new();
        let mut pending: Option<Token> = initial;
        let ghost mut taken: nat = 0;
        proof {
            lexer@.lemma_skip_nothing();
            lemma_views_empty(statements);
            match total {
                Ok((more, count)) => {
                    assert(Seq::<StatementView>::empty() + more.statements =~= more.statements);
                },
                Err(error) => {},
            }
        }
        loop
            invariant
                lexer@ == old(lexer)@.skip(taken),
                total == started(
                    initial_view(initial),
                    old(lexer)@,
                    |first: TokenView, rest: Stream| items(first, rest),
                ),
                total == extended_block(
                    views(statements),
                    taken,
                    started(
                        initial_view(pending),
                        lexer@,
                        |first: TokenView, rest: Stream| items(first, rest),
                    ),
                ),
                weight(lexer@, pending) <= weight(old(lexer)@, initial),
            decreases weight(lexer@, pending),
        {
            let ghost here = lexer@;
            let ghost given = pending;
            let ghost before = statements;
            let first = match take_or_next(pending, lexer) {
                Ok(token) => token,
                Err(error) => {
                    return Err(error);
                },
            };
            pending = None;
            let ghost rest = lexer@;
            let ghost head = first@;
            let ghost moved: nat = if given is Some { 0 } else { 1 };
            proof {
                old(lexer)@.lemma_skip_skip(taken, moved);
                rest.lemma_skip_nothing();
            }
            let start = Start::classify(&first.lexeme);
            if start == Start::End {
                let block = Block { statements };
                proof {
                    lemma_items_end(head, rest);
                    block.lemma_view();
                    assert(views(statements) + Seq::<StatementView>::empty() =~= views(statements));
                }
                return Ok(block);
            }
            proof {
                lemma_items_step(head, rest);
            }
            let statement = match Self::parse_item(lexer, first, start) {
                Ok(statement) => statement,
                Err(error) => {
                    return Err(error);
                },
            };
            statements.push(statement);
            proof {
                let step = block_statement(head, rest)->Ok_0.1;
                rest.lemma_skip_skip(step, 0);
                old(lexer)@.lemma_skip_skip(taken + moved, step);
                lemma_block_started(rest.skip(step));
                lemma_views_push(before, statements, statement);
                lemma_extended_block(
                    views(before),
                    taken + moved,
                    statement@,
                    step,
                    started(
                        None,
                        rest.skip(step),
                        |first: TokenView, rest: Stream| items(first, rest),
                    ),
                );
                taken = taken + moved + step;
            }
        }
    }
}


impl Block {
    /// Generates the statements of the block: declares the functions that
    /// the block defines, then lowers the statements in their order. What
    /// they name stays in scope.
    pub fn lower_local(&self, context: &mut Context) -> (result: Result<(), GeneratorError>)
        requires
            old(context)@.well_formed(),
        ensures
            lowers(lower_local(old(context)@, self@), old(context)@, final(context)@, result),
        decreases self, 0nat,
    {
        proof {
            reveal(lowering::lower_local);
            reveal(lowering::lower_statements);
        }
        let ghost start = context@;
        proof {
            self.lemma_view();
        }
        let mut at: usize = 0;
        while at < self.statements.len()
            invariant
                at <= self.statements.len(),
                self@.statements == views(self.statements),
                start.well_formed(),
                context@.well_formed(),
                context@.grown_from(start),
                context@.frame == start.frame,
                declare_functions(start, self@.statements, 0) == declare_functions(
                    context@,
                    self@.statements,
                    at as nat,
                ),
            decreases self.statements.len() - at,
        {
            proof {
                reveal(lowering::lower_statements);
                reveal(lowering::lower_local);
            }
            let ghost middle = context@;
            match &self.statements[at] {
                Statement::FunctionDefinition(definition) => {
                    context.declare_function(
                        &definition.name,
                        definition.arguments.len(),
                        definition.result.len(),
                    );
                },
                _ => {},
            }
            proof {
                context@.lemma_grown_at_once();
                context@.lemma_grown_on(middle, start);
            }
            at = at + 1;
        }
        let ghost declared = context@;
        let mut at: usize = 0;
        while at < self.statements.len()
            invariant
                at <= self.statements.len(),
                self@.statements == views(self.statements),
                start == old(context)@,
                start.well_formed(),
                context@.well_formed(),
                context@.grown_from(start),
                lower_local(start, self@) == lower_statements(
                    context@,
                    self@.statements,
                    at as nat,
                ),
            decreases self.statements.len() - at,
        {
            proof {
                reveal(lowering::lower_statements);
                reveal(lowering::lower_local);
            }
            let ghost middle = context@;
            match self.statements[at].lower(context) {
                Ok(()) => {},
                Err(error) => {
                    return Err(error);
                },
            }
            proof {
                context@.lemma_grown_on(middle, start);
            }
            at = at + 1;
        }
        Ok(())
    }

    /// Generates the block: lowers its statements and takes out of scope
    /// what they have named.
    pub fn lower(&self, context: &mut Context) -> (result: Result<(), GeneratorError>)
        requires
            old(context)@.well_formed(),
        ensures
            lowers(lower_block(old(context)@, self@), old(context)@, final(context)@, result),
        decreases self, 1nat,
    {
        proof {
            reveal(lowering::lower_block);
            reveal(lowering::lower_local);
        }
        let variables = context.frame.variables.len();
        let visible = context.visible.len();
        match self.lower_local(context) {
            Ok(()) => {},
            Err(error) => {
                return Err(error);
            },
        }
        context.leave_scope(variables, visible);
        Ok(())
    }
}

} // verus!
