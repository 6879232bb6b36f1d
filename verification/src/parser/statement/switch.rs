//! The switch statement.

use vstd::prelude::*;
use crate::error::Error;
use crate::generator::context::Context;
use crate::generator::error::Error as GeneratorError;
use crate::generator::ir::IntPredicate;
use crate::generator::ir::Label;
use crate::generator::ir::Operand;
use crate::generator::literal::read_literal;
use crate::generator::lowering::lower_cases;
use crate::generator::lowering::lower_switch;
use crate::generator::lowering::lowers;
use crate::generator::lowering;
use crate::lexer::Lexer;
use crate::lexer::stream::Stream;
use crate::lexer::token::Keyword;
use crate::lexer::token::LexemeView;
use crate::lexer::token::Symbol;
use crate::lexer::token::Token;
use crate::lexer::token::TokenView;
use crate::parser::error::Expected;
use crate::parser::extended_cases;
use crate::parser::grammar::block;
use crate::parser::grammar::case;
use crate::parser::grammar::cases;
use crate::parser::grammar::expression;
use crate::parser::grammar::switch;
use crate::parser::grammar;
use crate::parser::initial_view;
use crate::parser::lemma_block_started;
use crate::parser::lemma_extended_cases;
use crate::parser::lemma_views_empty;
use crate::parser::lemma_views_push;
use crate::parser::parses;
use crate::parser::peek_next;
use crate::parser::result_view;
use crate::parser::started;
use crate::parser::statement::block::Block;
use crate::parser::statement::block::BlockView;
use crate::parser::statement::expression::Expression;
use crate::parser::statement::expression::ExpressionView;
use crate::parser::statement::expression::literal::Literal;
use crate::parser::take_or_next;
use crate::parser::views;
use crate::parser::weight;

verus! {

/// One `case` of a switch.
#[derive(Debug, PartialEq, Eq)]
pub struct Case {
    /// The value that selects the case.
    pub literal: Literal,
    /// The block that runs where the case is selected.
    pub block: Block,
}

/// The model of a [`Case`].
pub struct CaseView {
    pub literal: Seq<char>,
    pub block: BlockView,
}

impl View for Case {
    type V = CaseView;

    open spec fn view(&self) -> CaseView
        decreases self,
    {
        CaseView { literal: self.literal@, block: self.block.model() }
    }
}

/// The `switch` statement. It holds at least one case or the default.
#[derive(Debug, PartialEq, Eq)]
pub struct Switch {
    /// The expression being matched.
    pub expression: Expression,
    /// The non-default cases.
    pub cases: Vec<Case>,
    /// The optional default case, if `cases` do not cover all possible values.
    pub default: Option<Block>,
}

/// The model of a [`Switch`].
pub struct SwitchView {
    pub expression: ExpressionView,
    pub cases: Seq<CaseView>,
    pub default: Option<BlockView>,
}

impl View for Switch {
    type V = SwitchView;

    open spec fn view(&self) -> SwitchView
        decreases self,
    {
        SwitchView {
            expression: self.expression@,
            cases: Seq::new(
                self.cases.len() as nat,
                |i: int|
                    if 0 <= i < self.cases.len() {
                        self.cases[i].view()
                    } else {
                        arbitrary()
                    },
            ),
            default: if self.default is Some {
                Some((self.default->0).model())
            } else {
                None
            },
        }
    }
}

impl SwitchView {
    /// A switch is complete where it holds a case or the default.
    pub open spec fn well_formed(self) -> bool {
        self.cases.len() > 0 || self.default is Some
    }
}

/// The parsing state.
#[derive(Debug, Clone, Copy, PartialEq, Eq, Structural)]
pub enum State {
    /// After match expression.
    CaseOrDefaultKeyword,
    /// After `case`.
    CaseBlock,
    /// After `default`.
    DefaultBlock,
}


impl Case {
    /// The element parser, which acts like a constructor. It starts with
    /// the literal of the case.
    pub fn parse(lexer: &mut Lexer, initial: Option<Token>) -> (result: Result<Case, Error>)
        ensures
            parses(
                started(
                    initial_view(initial),
                    old(lexer)@,
                    |first: TokenView, rest: Stream| case(first, rest),
                ),
                old(lexer)@,
                final(lexer)@,
                result_view(result),
            ),
        decreases weight(old(lexer)@, initial), 7nat,
    {
        proof {
            reveal(grammar::case);
        }
        let first = match take_or_next(initial, lexer) {
            Ok(token) => token,
            Err(error) => {
                return Err(error);
            },
        };
        let ghost rest = lexer@;
        let literal = match Literal::from_lexeme(&first.lexeme) {
            Some(literal) => literal,
            None => {
                return Err(Error::unexpected(Expected::one(Expected::Literal), first));
            },
        };
        let open = match take_or_next(None, lexer) {
            Ok(token) => token,
            Err(error) => {
                return Err(error);
            },
        };
        if !open.lexeme.is_symbol(Symbol::BracketCurlyLeft) {
            return Err(
                Error::unexpected(Expected::one(Expected::Symbol(Symbol::BracketCurlyLeft)), open),
            );
        }
        proof {
            lemma_block_started(rest.tail());
        }
        let block = match Block::parse(lexer, None) {
            Ok(block) => block,
            Err(error) => {
                return Err(error);
            },
        };
        proof {
            let taken = grammar::block(rest.tail())->Ok_0.1;
            rest.lemma_skip_skip(1, taken);
            old(lexer)@.lemma_skip_skip(1, taken + 1);
        }
        Ok(Case { literal, block })
    }
}

impl Switch {
    /// The model lists the models of the cases.
    pub proof fn lemma_view(self)
        ensures
            self@.cases == views(self.cases),
    {
        assert(self@.cases =~= views(self.cases));
    }

    /// Parses `case`, which stands next, and the case behind it.
    fn parse_case(lexer: &mut Lexer) -> (result: Result<Case, Error>)
        requires
            old(lexer)@.head() matches Ok(next) && next.lexeme
                == LexemeView::Keyword(Keyword::Case),
        ensures
            parses(
                grammar::case_next(old(lexer)@),
                old(lexer)@,
                final(lexer)@,
                result_view(result),
            ),
        decreases weight(old(lexer)@, None), 7nat,
    {
        let _ = take_or_next(None, lexer);
        match Case::parse(lexer, None) {
            Ok(case) => {
                proof {
                    let first = old(lexer)@.tail().head()->Ok_0;
                    let taken = grammar::case(first, old(lexer)@.skip(2))->Ok_0.1;
                    old(lexer)@.lemma_skip_skip(1, 1);
                    old(lexer)@.lemma_skip_skip(1, taken + 1);
                }
                Ok(case)
            },
            Err(error) => {
                proof {
                    old(lexer)@.lemma_skip_skip(1, 1);
                }
                Err(error)
            },
        }
    }

    /// Parses `default`, which stands next, and the block behind it in braces.
    fn parse_default(lexer: &mut Lexer) -> (result: Result<Block, Error>)
        requires
            old(lexer)@.head() matches Ok(next) && next.lexeme
                == LexemeView::Keyword(Keyword::Default),
        ensures
            parses(
                grammar::later(
                    1,
                    grammar::braced(old(lexer)@.tail()),
                ),
                old(lexer)@,
                final(lexer)@,
                result_view(result),
            ),
        decreases weight(old(lexer)@, None), 7nat,
    {
        let _ = take_or_next(None, lexer);
        match Block::parse_braced(lexer) {
            Ok(block) => {
                proof {
                    let taken = grammar::braced(old(lexer)@.tail())->Ok_0.1;
                    old(lexer)@.lemma_skip_skip(1, taken);
                }
                Ok(block)
            },
            Err(error) => Err(error),
        }
    }

    /// Parses the cases and the default of a switch, by a machine of three
    /// states: where a case or the default may come, behind `case`, and
    /// behind `default`.
    fn parse_cases(lexer: &mut Lexer) -> (result: Result<(Vec<Case>, Option<Block>), Error>)
        ensures
            match grammar::cases(old(lexer)@) {
                Ok(((cases, default), taken)) => (result matches Ok(found) && views(found.0)
                    == cases && (match default {
                    Some(block) => found.1 matches Some(parsed) && parsed@ == block,
                    None => found.1 is None,
                })) && final(lexer)@ == old(lexer)@.skip(taken),
                Err(error) => result matches Err(raised) && raised@ == error,
            },
        decreases weight(old(lexer)@, None), 8nat,
    {
        let ghost inner = lexer@;
        let mut state = State::CaseOrDefaultKeyword;
        let mut list: Vec<Case> = Vec::new();
        let ghost mut taken: nat = 0;
        proof {
            inner.lemma_skip_nothing();
            lemma_views_empty(list);
            match grammar::cases(inner) {
                Ok(((more, default), count)) => {
                    assert(Seq::<CaseView>::empty() + more =~= more);
                },
                Err(error) => {},
            }
        }
        loop
            invariant
                inner == old(lexer)@,
                lexer@ == inner.skip(taken),
                grammar::cases(inner) == extended_cases(
                    views(list),
                    taken,
                    grammar::cases(lexer@),
                ),
                state == State::CaseBlock ==> (lexer@.head() matches Ok(next) && next.lexeme
                    == LexemeView::Keyword(Keyword::Case)),
                state == State::DefaultBlock ==> (lexer@.head() matches Ok(next) && next.lexeme
                    == LexemeView::Keyword(Keyword::Default)),
            decreases
                    lexer@.len(),
                    (if state == State::CaseOrDefaultKeyword {
                        1nat
                    } else {
                        0nat
                    }),
        {
            let ghost here = lexer@;
            let ghost before = list;
            match state {
                State::CaseOrDefaultKeyword => {
                    let next = match peek_next(lexer) {
                        Ok(token) => token,
                        Err(error) => {
                            proof {
                                grammar::lemma_cases_unread(here);
                            }
                            return Err(error);
                        },
                    };
                    if next.lexeme.is_keyword(Keyword::Case) {
                        state = State::CaseBlock;
                    } else if next.lexeme.is_keyword(Keyword::Default) {
                        state = State::DefaultBlock;
                    } else {
                        proof {
                            grammar::lemma_cases_end(here);
                            assert(views(list) + Seq::<CaseView>::empty() =~= views(list));
                        }
                        return Ok((list, None));
                    }
                },
                State::CaseBlock => {
                    proof {
                        grammar::lemma_cases_case(here);
                    }
                    let case = match Self::parse_case(lexer) {
                        Ok(case) => case,
                        Err(error) => {
                            return Err(error);
                        },
                    };
                    list.push(case);
                    proof {
                        let step = grammar::case_next(here)->Ok_0.1;
                        inner.lemma_skip_skip(taken, step);
                        lemma_views_push(before, list, case);
                        lemma_extended_cases(
                            views(before),
                            taken,
                            case@,
                            step,
                            grammar::cases(here.skip(step)),
                        );
                        taken = taken + step;
                    }
                    state = State::CaseOrDefaultKeyword;
                },
                State::DefaultBlock => {
                    proof {
                        grammar::lemma_cases_default(here);
                    }
                    let default = match Self::parse_default(lexer) {
                        Ok(block) => block,
                        Err(error) => {
                            return Err(error);
                        },
                    };
                    proof {
                        let step = grammar::braced(here.tail())->Ok_0.1;
                        inner.lemma_skip_skip(taken, step + 1);
                        assert(views(list) + Seq::<CaseView>::empty() =~= views(list));
                    }
                    return Ok((list, Some(default)));
                },
            }
        }
    }

    /// The element parser, which acts like a constructor. It starts with
    /// the first token of the expression. A switch that it hands back holds
    /// a case or the default; one with neither is refused, with the token
    /// found where `case` or `default` should stand.
    pub fn parse(lexer: &mut Lexer, initial: Option<Token>) -> (result: Result<Switch, Error>)
        ensures
            parses(
                started(
                    initial_view(initial),
                    old(lexer)@,
                    |first: TokenView, rest: Stream| switch(first, rest),
                ),
                old(lexer)@,
                final(lexer)@,
                result_view(result),
            ),
            result matches Ok(parsed) ==> parsed@.well_formed(),
        decreases weight(old(lexer)@, initial), 9nat,
    {
        proof {
            reveal(grammar::switch);
        }
        let first = match take_or_next(initial, lexer) {
            Ok(token) => token,
            Err(error) => {
                return Err(error);
            },
        };
        let ghost rest = lexer@;
        let ghost head = first@;
        let expression = match Expression::parse(lexer, Some(first)) {
            Ok(expression) => expression,
            Err(error) => {
                return Err(error);
            },
        };
        let ghost offset = grammar::expression(head, rest)->Ok_0.1;
        let (cases, default) = match Self::parse_cases(lexer) {
            Ok(found) => found,
            Err(error) => {
                return Err(error);
            },
        };
        proof {
            let count = grammar::cases(rest.skip(offset))->Ok_0.1;
            rest.lemma_skip_skip(offset, count);
            old(lexer)@.lemma_skip_skip(1, offset + count);
        }
        if cases.len() == 0 && default.is_none() {
            proof {
                grammar::lemma_cases_none(rest.skip(offset));
                rest.skip(offset).lemma_skip_nothing();
            }
            let found = match peek_next(lexer) {
                Ok(token) => token,
                Err(error) => {
                    return Err(error);
                },
            };
            return Err(
                Error::unexpected(
                    Expected::two(
                        Expected::Keyword(Keyword::Case),
                        Expected::Keyword(Keyword::Default),
                    ),
                    found,
                ),
            );
        }
        let switch = Switch { expression, cases, default };
        proof {
            switch.lemma_view();
        }
        Ok(switch)
    }
}

impl Switch {
    /// Generates the switch.
    pub fn lower(&self, context: &mut Context) -> (result: Result<(), GeneratorError>)
        requires
            old(context)@.well_formed(),
        ensures
            lowers(lower_switch(old(context)@, self@), old(context)@, final(context)@, result),
        decreases self, 0nat,
    {
        proof {
            reveal(lowering::lower_switch);
            reveal(lowering::lower_cases);
            reveal(lowering::lower_default);
        }
        proof {
            self.lemma_view();
        }
        if self.cases.len() == 0 {
            return match &self.default {
                Some(block) => block.lower(context),
                None => Err(GeneratorError::EmptySwitch),
            };
        }
        let ghost before = context@.frame;
        let ghost mut pending: Set<int> = Set::empty();
        proof {
            context@.lemma_grown_at_once();
            before.lemma_linked_none(before);
        }
        let join_block = context.append_basic_block(Label::SwitchJoin);
        proof {
            before.lemma_linked_append(before, pending, Label::SwitchJoin);
            pending = pending.insert(join_block as int);
        }

        let ghost frame = context@.frame;
        let mut current_block = context.append_basic_block(Label::SwitchCaseConstant(1));
        proof {
            frame.lemma_linked_append(before, pending, Label::SwitchCaseConstant(1));
            pending = pending.insert(current_block as int);
        }
        let ghost frame = context@.frame;
        context.build_unconditional_branch(current_block);
        proof {
            frame.lemma_linked_emit(before, pending, context@.frame);
        }

        let mut index: usize = 0;
        while index < self.cases.len()
            invariant
                index <= self.cases.len(),
                self@.cases == views(self.cases),
                before == old(context)@.frame,
                context@.well_formed(),
                context@.kept_from(old(context)@),
                context@.frame.linked_but(before, pending),
                pending =~= Set::<int>::empty().insert(join_block as int).insert(
                    current_block as int,
                ),
                context@.frame.blocks[context@.frame.current as int].terminated,
                join_block < context@.frame.blocks.len(),
                current_block < context@.frame.blocks.len(),
                join_block != current_block,
                2 * index + 2 <= context@.frame.blocks.len(),
                lower_switch(old(context)@, self@) == lowering::lower_default(
                    lower_cases(context@, self@, index as nat, current_block, join_block),
                    self@,
                    join_block,
                ),
            decreases self.cases.len() - index,
        {
            proof {
                reveal(lowering::lower_cases);
                reveal(lowering::lower_default);
                reveal(lowering::lower_switch);
            }
            let ghost frame = context@.frame;
            let expression_block = context.append_basic_block(
                Label::SwitchCaseBranch(index + 1),
            );
            proof {
                frame.lemma_linked_append(before, pending, Label::SwitchCaseBranch((index + 1) as usize));
                pending = pending.insert(expression_block as int);
            }
            let ghost frame = context@.frame;
            context.set_basic_block(expression_block);
            proof {
                frame.lemma_linked_enter(before, pending, expression_block);
                pending = pending.remove(expression_block as int);
            }
            let ghost frame = context@.frame;
            match self.cases[index].block.lower(context) {
                Ok(()) => {},
                Err(error) => {
                    return Err(error);
                },
            }
            proof {
                context@.frame.lemma_linked_region(frame, before, pending);
            }
            let ghost frame = context@.frame;
            context.build_unconditional_branch(join_block);
            proof {
                frame.lemma_linked_emit(before, pending, context@.frame);
            }

            let ghost frame = context@.frame;
            context.set_basic_block(current_block);
            proof {
                frame.lemma_linked_enter(before, pending, current_block);
                pending = pending.remove(current_block as int);
            }
            let ghost frame = context@.frame;
            let scrutinee = match self.expression.lower_value(context) {
                Ok(value) => value,
                Err(error) => {
                    return Err(error);
                },
            };
            proof {
                context@.frame.lemma_linked_region(frame, before, pending);
            }
            let constant = match read_literal(&self.cases[index].literal.value) {
                Some(word) => Operand::Constant(word),
                None => {
                    return Err(GeneratorError::InvalidLiteral);
                },
            };
            let ghost frame = context@.frame;
            let comparison = context.build_int_compare(IntPredicate::Equal, constant, scrutinee);
            proof {
                frame.lemma_linked_emit(before, pending, context@.frame);
            }

            let ghost frame = context@.frame;
            let next_block = context.append_basic_block(Label::SwitchCaseConstant(index + 2));
            proof {
                frame.lemma_linked_append(before, pending, Label::SwitchCaseConstant((index + 2) as usize));
                pending = pending.insert(next_block as int);
            }
            let ghost frame = context@.frame;
            context.build_conditional_branch(comparison, expression_block, next_block);
            proof {
                frame.lemma_linked_emit(before, pending, context@.frame);
            }
            current_block = next_block;
            index = index + 1;
        }

        let ghost frame = context@.frame;
        context.set_basic_block(current_block);
        proof {
            frame.lemma_linked_enter(before, pending, current_block);
            pending = pending.remove(current_block as int);
        }
        let ghost frame = context@.frame;
        match &self.default {
            Some(block) => match block.lower(context) {
                Ok(()) => {},
                Err(error) => {
                    return Err(error);
                },
            },
            None => {},
        }
        proof {
            context@.lemma_grown_at_once();
            context@.frame.lemma_linked_region(frame, before, pending);
        }
        let ghost frame = context@.frame;
        context.build_unconditional_branch(join_block);
        proof {
            frame.lemma_linked_emit(before, pending, context@.frame);
        }

        let ghost frame = context@.frame;
        context.set_basic_block(join_block);
        proof {
            frame.lemma_linked_enter(before, pending, join_block);
            pending = pending.remove(join_block as int);
            assert(pending =~= Set::empty());
            context@.frame.lemma_linked_all(before);
        }

        Ok(())
    }
}

} // verus!
