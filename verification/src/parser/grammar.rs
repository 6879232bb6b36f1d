//! The grammar: what each rule builds from the tokens that are left.
//!
//! A rule is given the token that it starts with, already taken, and the
//! stream behind that token. It answers with what it built and the number of
//! tokens that it took from the stream, or with the error that stopped it.

use vstd::prelude::*;
use crate::error::ErrorView;
use crate::lexer::stream::Stream;
use crate::lexer::token::Keyword;
use crate::lexer::token::LexemeView;
use crate::lexer::token::LiteralView;
use crate::lexer::token::Symbol;
use crate::lexer::token::TokenView;
use crate::parser::error::Expected;
use crate::parser::identifier::IdentifierView;
use crate::parser::statement::StatementView;
use crate::parser::statement::assignment::AssignmentView;
use crate::parser::statement::block::BlockView;
use crate::parser::statement::expression::ExpressionView;
use crate::parser::statement::expression::function_call::FunctionCallView;
use crate::parser::statement::for_loop::ForLoopView;
use crate::parser::statement::function_definition::FunctionDefinitionView;
use crate::parser::statement::if_conditional::IfConditionalView;
use crate::parser::statement::switch::CaseView;
use crate::parser::statement::switch::SwitchView;
use crate::parser::statement::variable_declaration::VariableDeclarationView;
verus! {

/// The outcome of a rule: what it built and how many tokens it took, or the
/// error that stopped it.
pub type Parsed<T> = Result<(T, nat), ErrorView>;

/// The outcome of a rule that ran after `count` tokens had been taken.
pub open spec fn later<T>(count: nat, outcome: Parsed<T>) -> Parsed<T> {
    match outcome {
        Ok((value, taken)) => Ok((value, taken + count)),
        Err(error) => Err(error),
    }
}

/// The keywords that start a statement.
pub open spec fn statement_start() -> Seq<Expected> {
    seq![
        Expected::Keyword(Keyword::Function),
        Expected::Keyword(Keyword::Let),
        Expected::Keyword(Keyword::If),
        Expected::Keyword(Keyword::Switch),
        Expected::Keyword(Keyword::For),
        Expected::Keyword(Keyword::Break),
        Expected::Keyword(Keyword::Continue),
        Expected::Keyword(Keyword::Leave),
    ]
}

/// What may stand where a block expects its next item.
pub open spec fn block_item_start() -> Seq<Expected> {
    seq![
        Expected::Keyword(Keyword::Function),
        Expected::Keyword(Keyword::Let),
        Expected::Keyword(Keyword::If),
        Expected::Keyword(Keyword::Switch),
        Expected::Keyword(Keyword::For),
        Expected::Keyword(Keyword::Break),
        Expected::Keyword(Keyword::Continue),
        Expected::Keyword(Keyword::Leave),
        Expected::Identifier,
        Expected::Literal,
        Expected::Symbol(Symbol::BracketCurlyLeft),
        Expected::Symbol(Symbol::BracketCurlyRight),
    ]
}

/// What starts an expression.
pub open spec fn expression_start() -> Seq<Expected> {
    seq![Expected::Identifier, Expected::Literal]
}

/// The source text of the literal that `lexeme` is, if it is one: an integer
/// or a string as written, `true` and `false` as their spelling.
pub open spec fn literal_text(lexeme: LexemeView) -> Option<Seq<char>> {
    match lexeme {
        LexemeView::Literal(literal) => Some(literal.text()),
        LexemeView::Keyword(Keyword::True) => Some(Keyword::True.spelling()),
        LexemeView::Keyword(Keyword::False) => Some(Keyword::False.spelling()),
        _ => None,
    }
}

/// The type that follows a name: with `typed`, a colon and an identifier are
/// taken where the colon stands next; else nothing is taken.
pub open spec fn annotation(rest: Stream, typed: bool) -> Parsed<Option<Seq<char>>> {
    if !typed {
        Ok((None, 0))
    } else {
        match rest.head() {
            Err(error) => Err(ErrorView::Lexer(error)),
            Ok(next) => if next.lexeme == LexemeView::Symbol(Symbol::Colon) {
                match rest.tail().head() {
                    Err(error) => Err(ErrorView::Lexer(error)),
                    Ok(name) => match name.lexeme {
                        LexemeView::Identifier(yul_type) => Ok((Some(yul_type), 2)),
                        _ => Err(ErrorView::unexpected(seq![Expected::Identifier], name)),
                    },
                }
            } else {
                Ok((None, 0))
            },
        }
    }
}

/// A list of names with commas between them, each with its type where
/// `typed` holds and one is given. The list ends before the first token
/// after a name that is no comma.
#[verifier::opaque]
pub open spec fn identifiers(first: TokenView, rest: Stream, typed: bool) -> Parsed<
    Seq<IdentifierView>,
>
    decreases rest.len(),
{
    match first.lexeme {
        LexemeView::Identifier(name) => match annotation(rest, typed) {
            Err(error) => Err(error),
            Ok((yul_type, taken)) => match rest.skip(taken).head() {
                Err(error) => Err(ErrorView::Lexer(error)),
                Ok(next) => if next.lexeme == LexemeView::Symbol(Symbol::Comma) {
                    match rest.skip(taken + 1).head() {
                        Err(error) => Err(ErrorView::Lexer(error)),
                        Ok(second) => match identifiers(second, rest.skip(taken + 2), typed) {
                            Err(error) => Err(error),
                            Ok((more, count)) => Ok(
                                (seq![IdentifierView { name, yul_type }] + more, taken + 2 + count),
                            ),
                        },
                    }
                } else {
                    Ok((seq![IdentifierView { name, yul_type }], taken))
                },
            },
        },
        _ => Err(ErrorView::unexpected(seq![Expected::Identifier], first)),
    }
}

/// The parameters of a function definition, behind `(`: typed names up to `)`.
pub open spec fn parameters(s: Stream) -> Parsed<Seq<IdentifierView>> {
    match s.head() {
        Err(error) => Err(ErrorView::Lexer(error)),
        Ok(first) => if first.lexeme == LexemeView::Symbol(Symbol::ParenthesisRight) {
            Ok((Seq::empty(), 1))
        } else {
            match identifiers(first, s.tail(), true) {
                Err(error) => Err(error),
                Ok((list, taken)) => match s.skip(taken + 1).head() {
                    Err(error) => Err(ErrorView::Lexer(error)),
                    Ok(close) => if close.lexeme == LexemeView::Symbol(Symbol::ParenthesisRight) {
                        Ok((list, taken + 2))
                    } else {
                        Err(
                            ErrorView::unexpected(
                                seq![
                                    Expected::Symbol(Symbol::Comma),
                                    Expected::Symbol(Symbol::ParenthesisRight),
                                ],
                                close,
                            ),
                        )
                    },
                },
            }
        },
    }
}

/// The results of a function definition, behind `)`: either `{` at once, or
/// `->`, typed names and `{`.
pub open spec fn results(s: Stream) -> Parsed<Seq<IdentifierView>> {
    match s.head() {
        Err(error) => Err(ErrorView::Lexer(error)),
        Ok(first) => if first.lexeme == LexemeView::Symbol(Symbol::BracketCurlyLeft) {
            Ok((Seq::empty(), 1))
        } else if first.lexeme == LexemeView::Symbol(Symbol::Arrow) {
            match s.tail().head() {
                Err(error) => Err(ErrorView::Lexer(error)),
                Ok(second) => match identifiers(second, s.skip(2), true) {
                    Err(error) => Err(error),
                    Ok((list, taken)) => match s.skip(taken + 2).head() {
                        Err(error) => Err(ErrorView::Lexer(error)),
                        Ok(open) => if open.lexeme == LexemeView::Symbol(
                            Symbol::BracketCurlyLeft,
                        ) {
                            Ok((list, taken + 3))
                        } else {
                            Err(
                                ErrorView::unexpected(
                                    seq![
                                        Expected::Symbol(Symbol::Comma),
                                        Expected::Symbol(Symbol::BracketCurlyLeft),
                                    ],
                                    open,
                                ),
                            )
                        },
                    },
                },
            }
        } else {
            Err(
                ErrorView::unexpected(
                    seq![
                        Expected::Symbol(Symbol::Arrow),
                        Expected::Symbol(Symbol::BracketCurlyLeft),
                    ],
                    first,
                ),
            )
        },
    }
}

/// Takes `symbol` from the head of `s`.
pub open spec fn symbol(s: Stream, symbol: Symbol) -> Parsed<()> {
    match s.head() {
        Err(error) => Err(ErrorView::Lexer(error)),
        Ok(next) => if next.lexeme == LexemeView::Symbol(symbol) {
            Ok(((), 1))
        } else {
            Err(ErrorView::unexpected(seq![Expected::Symbol(symbol)], next))
        },
    }
}

/// A function call: the name, `(`, the arguments and `)`.
#[verifier::opaque]
pub open spec fn function_call(first: TokenView, rest: Stream) -> Parsed<FunctionCallView>
    decreases rest.len(), 2nat,
{
    match first.lexeme {
        LexemeView::Identifier(name) => match rest.head() {
            Err(error) => Err(ErrorView::Lexer(error)),
            Ok(open) => if open.lexeme == LexemeView::Symbol(Symbol::ParenthesisLeft) {
                match arguments(rest.tail()) {
                    Err(error) => Err(error),
                    Ok((arguments, taken)) => Ok((FunctionCallView { name, arguments }, taken + 1)),
                }
            } else {
                Err(ErrorView::unexpected(seq![Expected::Symbol(Symbol::ParenthesisLeft)], open))
            },
        },
        _ => Err(ErrorView::unexpected(seq![Expected::Identifier], first)),
    }
}

/// An expression: a literal, or a name, which is a function call where `(`
/// stands behind it.
#[verifier::opaque]
pub open spec fn expression(first: TokenView, rest: Stream) -> Parsed<ExpressionView>
    decreases rest.len(), 3nat,
{
    match first.lexeme {
        LexemeView::Identifier(name) => match rest.head() {
            Err(error) => Err(ErrorView::Lexer(error)),
            Ok(next) => if next.lexeme == LexemeView::Symbol(Symbol::ParenthesisLeft) {
                match function_call(first, rest) {
                    Err(error) => Err(error),
                    Ok((call, taken)) => Ok((ExpressionView::FunctionCall(call), taken)),
                }
            } else {
                Ok((ExpressionView::Identifier(name), 0))
            },
        },
        _ => match literal_text(first.lexeme) {
            Some(text) => Ok((ExpressionView::Literal(text), 0)),
            None => Err(ErrorView::unexpected(expression_start(), first)),
        },
    }
}

/// The expressions with commas between them that end with `)`.
#[verifier::opaque]
pub open spec fn argument_list(first: TokenView, rest: Stream) -> Parsed<Seq<ExpressionView>>
    decreases rest.len(), 4nat,
{
    match expression(first, rest) {
        Err(error) => Err(error),
        Ok((argument, taken)) => match rest.skip(taken).head() {
            Err(error) => Err(ErrorView::Lexer(error)),
            Ok(next) => if next.lexeme == LexemeView::Symbol(Symbol::ParenthesisRight) {
                Ok((seq![argument], taken + 1))
            } else if next.lexeme == LexemeView::Symbol(Symbol::Comma) {
                match rest.skip(taken + 1).head() {
                    Err(error) => Err(ErrorView::Lexer(error)),
                    Ok(second) => match argument_list(second, rest.skip(taken + 2)) {
                        Err(error) => Err(error),
                        Ok((more, count)) => Ok((seq![argument] + more, taken + 2 + count)),
                    },
                }
            } else {
                Err(
                    ErrorView::unexpected(
                        seq![
                            Expected::Symbol(Symbol::Comma),
                            Expected::Symbol(Symbol::ParenthesisRight),
                        ],
                        next,
                    ),
                )
            },
        },
    }
}

/// The arguments of a call, behind `(`: `)` at once, or expressions up to `)`.
#[verifier::opaque]
pub open spec fn arguments(s: Stream) -> Parsed<Seq<ExpressionView>>
    decreases s.len(), 5nat,
{
    match s.head() {
        Err(error) => Err(ErrorView::Lexer(error)),
        Ok(first) => if first.lexeme == LexemeView::Symbol(Symbol::ParenthesisRight) {
            Ok((Seq::empty(), 1))
        } else {
            later(1, argument_list(first, s.tail()))
        },
    }
}

/// A block, behind its `{`: the items up to the `}` that closes it.
#[verifier::opaque]
pub open spec fn block(s: Stream) -> Parsed<BlockView>
    decreases s.len(), 6nat,
{
    match s.head() {
        Err(error) => Err(ErrorView::Lexer(error)),
        Ok(first) => if first.lexeme is EndOfFile {
            Err(ErrorView::unexpected(block_item_start(), first))
        } else {
            later(1, items(first, s.tail()))
        },
    }
}

/// `{` and the block behind it.
pub open spec fn braced(s: Stream) -> Parsed<BlockView> {
    match symbol(s, Symbol::BracketCurlyLeft) {
        Err(error) => Err(error),
        Ok(_) => later(1, block(s.tail())),
    }
}

/// One case of a switch, behind `case`: a literal, `{` and a block.
#[verifier::opaque]
pub open spec fn case(first: TokenView, rest: Stream) -> Parsed<CaseView>
    decreases rest.len(), 7nat,
{
    match literal_text(first.lexeme) {
        None => Err(ErrorView::unexpected(seq![Expected::Literal], first)),
        Some(literal) => match symbol(rest, Symbol::BracketCurlyLeft) {
            Err(error) => Err(error),
            Ok(_) => match block(rest.tail()) {
                Err(error) => Err(error),
                Ok((block, taken)) => Ok((CaseView { literal, block }, taken + 1)),
            },
        },
    }
}

/// The cases of a switch and its default. Each `case` is followed by a
/// case, after which more may come; `default` is followed by a block, which
/// ends the switch; any other token ends it too and is left in the stream.
#[verifier::opaque]
pub open spec fn cases(s: Stream) -> Parsed<(Seq<CaseView>, Option<BlockView>)>
    decreases s.len(), 8nat,
{
    match s.head() {
        Err(error) => Err(ErrorView::Lexer(error)),
        Ok(next) => if next.lexeme == LexemeView::Keyword(Keyword::Case) {
            match s.tail().head() {
                Err(error) => Err(ErrorView::Lexer(error)),
                Ok(first) => match case(first, s.skip(2)) {
                    Err(error) => Err(error),
                    Ok((one, taken)) => match cases(s.skip(taken + 2)) {
                        Err(error) => Err(error),
                        Ok(((more, default), count)) => Ok(
                            ((seq![one] + more, default), taken + 2 + count),
                        ),
                    },
                },
            }
        } else if next.lexeme == LexemeView::Keyword(Keyword::Default) {
            match symbol(s.tail(), Symbol::BracketCurlyLeft) {
                Err(error) => Err(error),
                Ok(_) => match block(s.skip(2)) {
                    Err(error) => Err(error),
                    Ok((block, taken)) => Ok(((Seq::empty(), Some(block)), taken + 2)),
                },
            }
        } else {
            Ok(((Seq::empty(), None), 0))
        },
    }
}

/// The switch on `expression`, which took `taken` tokens, with the cases
/// and the default that `outcome` holds. One without any case and without
/// a default is refused, with the token found behind the expression, where
/// `case` or `default` should stand: `behind` is the stream there.
pub open spec fn switch_of(
    behind: Stream,
    expression: ExpressionView,
    taken: nat,
    outcome: Parsed<(Seq<CaseView>, Option<BlockView>)>,
) -> Parsed<SwitchView> {
    match outcome {
        Err(error) => Err(error),
        Ok(((cases, default), count)) => if cases.len() == 0 && default is None {
            match behind.head() {
                Err(error) => Err(ErrorView::Lexer(error)),
                Ok(found) => Err(
                    ErrorView::unexpected(
                        seq![
                            Expected::Keyword(Keyword::Case),
                            Expected::Keyword(Keyword::Default),
                        ],
                        found,
                    ),
                ),
            }
        } else {
            Ok((SwitchView { expression, cases, default }, taken + count))
        },
    }
}

/// A switch, behind `switch`: the expression, then the cases and the
/// default. One without any case and without a default is refused, with the
/// token that stands behind its expression.
#[verifier::opaque]
pub open spec fn switch(first: TokenView, rest: Stream) -> Parsed<SwitchView>
    decreases rest.len(), 9nat,
{
    match expression(first, rest) {
        Err(error) => Err(error),
        Ok((expression, taken)) => switch_of(
            rest.skip(taken),
            expression,
            taken,
            cases(rest.skip(taken)),
        ),
    }
}

/// Cases that hold neither a case nor the default have taken nothing, and a
/// token that is neither `case` nor `default` stands next.
pub proof fn lemma_cases_none(s: Stream)
    ensures
        cases(s) matches Ok(((list, default), taken)) ==> (list.len() == 0 && default is None
            ==> taken == 0 && s.head() is Ok),
{
    reveal(cases);
}

/// Where neither `case` nor `default` stands next, the cases end and nothing is taken.
pub proof fn lemma_cases_end(s: Stream)
    requires
        s.head() matches Ok(next) && next.lexeme != LexemeView::Keyword(Keyword::Case)
            && next.lexeme != LexemeView::Keyword(Keyword::Default),
    ensures
        cases(s) == Ok::<((Seq<CaseView>, Option<BlockView>), nat), ErrorView>(
            ((Seq::empty(), None), 0),
        ),
{
    reveal(cases);
}

/// Where the next token cannot be read, the cases cannot be read either.
pub proof fn lemma_cases_unread(s: Stream)
    requires
        s.head() is Err,
    ensures
        cases(s) == Err::<((Seq<CaseView>, Option<BlockView>), nat), ErrorView>(
            ErrorView::Lexer(s.head()->Err_0),
        ),
{
    reveal(cases);
}

/// Where `case` stands next, a case follows, and the cases behind it.
pub proof fn lemma_cases_case(s: Stream)
    requires
        s.head() matches Ok(next) && next.lexeme == LexemeView::Keyword(Keyword::Case),
    ensures
        cases(s) == (match case_next(s) {
            Err(error) => Err(error),
            Ok((one, taken)) => match cases(s.skip(taken)) {
                Err(error) => Err(error),
                Ok(((more, default), count)) => Ok(((seq![one] + more, default), taken + count)),
            },
        }),
{
    reveal(cases);
    reveal(case);
}

/// Where `default` stands next, the block in braces behind it ends the cases.
pub proof fn lemma_cases_default(s: Stream)
    requires
        s.head() matches Ok(next) && next.lexeme == LexemeView::Keyword(Keyword::Default),
    ensures
        cases(s) == (match braced(s.tail()) {
            Err(error) => Err(error),
            Ok((block, taken)) => Ok(((Seq::<CaseView>::empty(), Some(block)), taken + 1)),
        }),
{
    reveal(cases);
    reveal(block);
    match symbol(s.tail(), Symbol::BracketCurlyLeft) {
        Ok(_) => {
            s.lemma_skip_skip(1, 1);
        },
        Err(_) => {},
    }
}

/// A switch that the grammar accepts holds a case or the default: one with
/// neither is refused.
pub proof fn lemma_switch_complete(first: TokenView, rest: Stream)
    ensures
        switch(first, rest) matches Ok((parsed, _)) ==> parsed.well_formed(),
{
    reveal(switch);
}

/// `case` and the case behind it.
pub open spec fn case_next(s: Stream) -> Parsed<CaseView> {
    match s.tail().head() {
        Err(error) => Err(ErrorView::Lexer(error)),
        Ok(first) => later(2, case(first, s.skip(2))),
    }
}

/// A for-loop, behind `for`: `{` and the initializer, the condition, `{` and
/// the finalizer, `{` and the body.
#[verifier::opaque]
pub open spec fn for_loop(first: TokenView, rest: Stream) -> Parsed<ForLoopView>
    decreases rest.len(), 9nat,
{
    if first.lexeme != LexemeView::Symbol(Symbol::BracketCurlyLeft) {
        Err(ErrorView::unexpected(seq![Expected::Symbol(Symbol::BracketCurlyLeft)], first))
    } else {
        match block(rest) {
            Err(error) => Err(error),
            Ok((initializer, a)) => match rest.skip(a).head() {
                Err(error) => Err(ErrorView::Lexer(error)),
                Ok(start) => match expression(start, rest.skip(a + 1)) {
                    Err(error) => Err(error),
                    Ok((condition, b)) => match symbol(
                        rest.skip(a + 1 + b),
                        Symbol::BracketCurlyLeft,
                    ) {
                        Err(error) => Err(error),
                        Ok(_) => match block(rest.skip(a + b + 2)) {
                            Err(error) => Err(error),
                            Ok((finalizer, c)) => match symbol(
                                rest.skip(a + b + c + 2),
                                Symbol::BracketCurlyLeft,
                            ) {
                                Err(error) => Err(error),
                                Ok(_) => match block(rest.skip(a + b + c + 3)) {
                                    Err(error) => Err(error),
                                    Ok((body, d)) => Ok(
                                        (
                                            ForLoopView { initializer, condition, finalizer, body },
                                            a + b + c + d + 3,
                                        ),
                                    ),
                                },
                            },
                        },
                    },
                },
            },
        }
    }
}

/// An if-conditional, behind `if`: the condition, `{` and a block.
#[verifier::opaque]
pub open spec fn if_conditional(first: TokenView, rest: Stream) -> Parsed<IfConditionalView>
    decreases rest.len(), 9nat,
{
    match expression(first, rest) {
        Err(error) => Err(error),
        Ok((condition, taken)) => match symbol(rest.skip(taken), Symbol::BracketCurlyLeft) {
            Err(error) => Err(error),
            Ok(_) => match block(rest.skip(taken + 1)) {
                Err(error) => Err(error),
                Ok((block, count)) => Ok(
                    (IfConditionalView { condition, block }, taken + 1 + count),
                ),
            },
        },
    }
}

/// A function definition, behind `function`: the name, `(`, the parameters
/// and `)`, the results where `->` stands, `{` and the body.
#[verifier::opaque]
pub open spec fn function_definition(first: TokenView, rest: Stream) -> Parsed<
    FunctionDefinitionView,
>
    decreases rest.len(), 9nat,
{
    match first.lexeme {
        LexemeView::Identifier(name) => match symbol(rest, Symbol::ParenthesisLeft) {
            Err(error) => Err(error),
            Ok(_) => match parameters(rest.tail()) {
                Err(error) => Err(error),
                Ok((arguments, taken)) => match results(rest.skip(taken + 1)) {
                    Err(error) => Err(error),
                    Ok((result, count)) => match block(rest.skip(taken + count + 1)) {
                        Err(error) => Err(error),
                        Ok((body, length)) => Ok(
                            (
                                FunctionDefinitionView { name, arguments, result, body },
                                taken + count + length + 1,
                            ),
                        ),
                    },
                },
            },
        },
        _ => Err(ErrorView::unexpected(seq![Expected::Identifier], first)),
    }
}

/// A variable declaration, behind `let`: typed names, and an expression
/// where `:=` follows them.
pub open spec fn variable_declaration(first: TokenView, rest: Stream) -> Parsed<
    VariableDeclarationView,
> {
    match identifiers(first, rest, true) {
        Err(error) => Err(error),
        Ok((bindings, taken)) => match rest.skip(taken).head() {
            Err(error) => Err(ErrorView::Lexer(error)),
            Ok(next) => if next.lexeme == LexemeView::Symbol(Symbol::Assignment) {
                match rest.skip(taken + 1).head() {
                    Err(error) => Err(ErrorView::Lexer(error)),
                    Ok(start) => match expression(start, rest.skip(taken + 2)) {
                        Err(error) => Err(error),
                        Ok((expression, count)) => Ok(
                            (
                                VariableDeclarationView { bindings, expression: Some(expression) },
                                taken + 2 + count,
                            ),
                        ),
                    },
                }
            } else {
                Ok((VariableDeclarationView { bindings, expression: None }, taken))
            },
        },
    }
}

/// An assignment: names, `:=` and an expression.
pub open spec fn assignment(first: TokenView, rest: Stream) -> Parsed<AssignmentView> {
    match identifiers(first, rest, false) {
        Err(error) => Err(error),
        Ok((bindings, taken)) => match symbol(rest.skip(taken), Symbol::Assignment) {
            Err(error) => Err(error),
            Ok(_) => match rest.skip(taken + 1).head() {
                Err(error) => Err(ErrorView::Lexer(error)),
                Ok(start) => match expression(start, rest.skip(taken + 2)) {
                    Err(error) => Err(error),
                    Ok((initializer, count)) => Ok(
                        (AssignmentView { bindings, initializer }, taken + 2 + count),
                    ),
                },
            },
        },
    }
}

/// A statement that a keyword starts: `first` is that keyword.
#[verifier::opaque]
pub open spec fn statement(first: TokenView, rest: Stream) -> Parsed<StatementView>
    decreases rest.len(), 10nat,
{
    match first.lexeme {
        LexemeView::Keyword(Keyword::Function) => match rest.head() {
            Err(error) => Err(ErrorView::Lexer(error)),
            Ok(start) => match function_definition(start, rest.tail()) {
                Err(error) => Err(error),
                Ok((definition, taken)) => Ok(
                    (StatementView::FunctionDefinition(definition), taken + 1),
                ),
            },
        },
        LexemeView::Keyword(Keyword::Let) => match rest.head() {
            Err(error) => Err(ErrorView::Lexer(error)),
            Ok(start) => match variable_declaration(start, rest.tail()) {
                Err(error) => Err(error),
                Ok((declaration, taken)) => Ok(
                    (StatementView::VariableDeclaration(declaration), taken + 1),
                ),
            },
        },
        LexemeView::Keyword(Keyword::If) => match rest.head() {
            Err(error) => Err(ErrorView::Lexer(error)),
            Ok(start) => match if_conditional(start, rest.tail()) {
                Err(error) => Err(error),
                Ok((conditional, taken)) => Ok((StatementView::IfConditional(conditional), taken + 1)),
            },
        },
        LexemeView::Keyword(Keyword::Switch) => match rest.head() {
            Err(error) => Err(ErrorView::Lexer(error)),
            Ok(start) => match switch(start, rest.tail()) {
                Err(error) => Err(error),
                Ok((switch, taken)) => Ok((StatementView::Switch(switch), taken + 1)),
            },
        },
        LexemeView::Keyword(Keyword::For) => match rest.head() {
            Err(error) => Err(ErrorView::Lexer(error)),
            Ok(start) => match for_loop(start, rest.tail()) {
                Err(error) => Err(error),
                Ok((for_loop, taken)) => Ok((StatementView::ForLoop(for_loop), taken + 1)),
            },
        },
        LexemeView::Keyword(Keyword::Continue) => Ok((StatementView::Continue, 0)),
        LexemeView::Keyword(Keyword::Break) => Ok((StatementView::Break, 0)),
        LexemeView::Keyword(Keyword::Leave) => Ok((StatementView::Leave, 0)),
        _ => Err(ErrorView::unexpected(statement_start(), first)),
    }
}

/// An item of a block, by the token that it starts with: a literal starts
/// an expression; a name starts an assignment where `:=` or a comma stands
/// behind it, else an expression; `{` starts a block; a keyword starts a
/// statement.
#[verifier::opaque]
pub open spec fn block_statement(first: TokenView, rest: Stream) -> Parsed<StatementView>
    decreases rest.len(), 11nat,
{
    match first.lexeme {
        LexemeView::Identifier(_) => match rest.head() {
            Err(error) => Err(ErrorView::Lexer(error)),
            Ok(next) => if next.lexeme == LexemeView::Symbol(Symbol::Assignment) || next.lexeme
                == LexemeView::Symbol(Symbol::Comma) {
                match assignment(first, rest) {
                    Err(error) => Err(error),
                    Ok((assignment, taken)) => Ok((StatementView::Assignment(assignment), taken)),
                }
            } else {
                match expression(first, rest) {
                    Err(error) => Err(error),
                    Ok((expression, taken)) => Ok((StatementView::Expression(expression), taken)),
                }
            },
        },
        LexemeView::Symbol(Symbol::BracketCurlyLeft) => match block(rest) {
            Err(error) => Err(error),
            Ok((block, taken)) => Ok((StatementView::Block(block), taken)),
        },
        LexemeView::Literal(_) | LexemeView::Keyword(Keyword::True) | LexemeView::Keyword(
            Keyword::False,
        ) => match expression(first, rest) {
            Err(error) => Err(error),
            Ok((expression, taken)) => Ok((StatementView::Expression(expression), taken)),
        },
        LexemeView::Keyword(_) => statement(first, rest),
        _ => Err(ErrorView::unexpected(block_item_start(), first)),
    }
}

/// The items of a block from `first` on, up to the `}` that closes it.
#[verifier::opaque]
pub open spec fn items(first: TokenView, rest: Stream) -> Parsed<BlockView>
    decreases rest.len(), 12nat,
{
    if first.lexeme == LexemeView::Symbol(Symbol::BracketCurlyRight) {
        Ok((BlockView { statements: Seq::empty() }, 0))
    } else {
        match block_statement(first, rest) {
            Err(error) => Err(error),
            Ok((statement, taken)) => match block(rest.skip(taken)) {
                Err(error) => Err(error),
                Ok((more, count)) => Ok(
                    (BlockView { statements: seq![statement] + more.statements }, taken + count),
                ),
            },
        }
    }
}

/// An object, behind `object`: its name as a string literal, `{`, `code`,
/// the block of its code in braces, and `}`. It stands for that block.
pub open spec fn object(s: Stream) -> Parsed<BlockView> {
    match s.head() {
        Err(error) => Err(ErrorView::Lexer(error)),
        Ok(name) => match name.lexeme {
            LexemeView::Literal(LiteralView::String(_)) => match symbol(
                s.tail(),
                Symbol::BracketCurlyLeft,
            ) {
                Err(error) => Err(error),
                Ok(_) => match s.skip(2).head() {
                    Err(error) => Err(ErrorView::Lexer(error)),
                    Ok(code) => if code.lexeme == LexemeView::Keyword(Keyword::Code) {
                        match braced(s.skip(3)) {
                            Err(error) => Err(error),
                            Ok((block, taken)) => match symbol(
                                s.skip(taken + 3),
                                Symbol::BracketCurlyRight,
                            ) {
                                Err(error) => Err(error),
                                Ok(_) => Ok((block, taken + 4)),
                            },
                        }
                    } else {
                        Err(ErrorView::unexpected(seq![Expected::Keyword(Keyword::Code)], code))
                    },
                },
            },
            _ => Err(ErrorView::unexpected(seq![Expected::Literal], name)),
        },
    }
}

/// A source: blocks, each in braces or in an object, up to the end of the
/// source. It is the list of those blocks.
#[verifier::opaque]
pub open spec fn program(s: Stream) -> Result<Seq<StatementView>, ErrorView>
    decreases s.len(),
{
    match s.head() {
        Err(error) => Err(ErrorView::Lexer(error)),
        Ok(first) => match first.lexeme {
            LexemeView::EndOfFile => Ok(Seq::empty()),
            LexemeView::Symbol(Symbol::BracketCurlyLeft) => match block(s.tail()) {
                Err(error) => Err(error),
                Ok((block, taken)) => match program(s.skip(taken + 1)) {
                    Err(error) => Err(error),
                    Ok(more) => Ok(seq![StatementView::Block(block)] + more),
                },
            },
            LexemeView::Keyword(Keyword::Object) => match object(s.tail()) {
                Err(error) => Err(error),
                Ok((block, taken)) => match program(s.skip(taken + 1)) {
                    Err(error) => Err(error),
                    Ok(more) => Ok(seq![StatementView::Block(block)] + more),
                },
            },
            _ => Err(
                ErrorView::unexpected(
                    seq![
                        Expected::Symbol(Symbol::BracketCurlyLeft),
                        Expected::Keyword(Keyword::Object),
                    ],
                    first,
                ),
            ),
        },
    }
}

} // verus!
