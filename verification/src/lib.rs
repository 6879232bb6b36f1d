//! A compiler for the Yul intermediate language: a lexer, a recursive-descent
//! parser and a generator that lowers the syntax tree into basic blocks.

pub mod error;
pub mod generator;
pub mod lexer;
pub mod parser;

use vstd::prelude::*;
use vstd::string::StringExecFns;
use crate::error::Error;
use crate::error::ErrorView;
use crate::generator::context::Target;
use crate::generator::machine::Fault;
use crate::generator::machine::run;
use crate::generator::machine::run_function;
use crate::generator::module::Module;
use crate::generator::module::ModuleView;
use crate::generator::module::function_named;
use crate::generator::module::lower_program;
use crate::lexer::Lexer;
use crate::lexer::location::Location;
use crate::lexer::shift::comment_body;
use crate::lexer::shift::commented;
use crate::lexer::shift::lemma_comment_skipped;
use crate::lexer::stream::lemma_lex_from_lexemes;
use crate::lexer::stream::lex;
use crate::lexer::stream::lexemes;
use crate::lexer::token::Lexeme;
use crate::parser::erasure::agree_on_tree;
use crate::parser::erasure::lemma_program_same;
use crate::parser::grammar::program;
use crate::parser::lemma_views_empty;
use crate::parser::lemma_views_push;
use crate::parser::list_view;
use crate::parser::parse_program;
use crate::parser::statement::Statement;
use crate::parser::views;

verus! {

/// The lexemes of a source text, in order, without the end of the source;
/// or the lexical error that the text holds.
pub fn tokenize(input: &str) -> (result: Result<Vec<Lexeme>, Error>)
    ensures
        match lex(input@).end {
            Ok(_) => result matches Ok(list) && views(list) == lexemes(lex(input@).tokens),
            Err(error) => result matches Err(raised) && raised@ == ErrorView::Lexer(error),
        },
{
    let mut lexer = Lexer::new(String::from_str(input));
    let ghost start = lexer@;
    let ghost mut taken: nat = 0;
    let mut list: Vec<Lexeme> = Vec::new();
    proof {
        start.lemma_skip_nothing();
        lemma_views_empty(list);
        lemma_lex_from_lexemes(input@.push('\n'), 0, Location::start());
        assert(views(list) =~= lexemes(start.tokens.take(0)));
    }
    loop
        invariant
            start == lex(input@),
            lexer@ == start.skip(taken),
            taken <= start.len(),
            views(list) == lexemes(start.tokens.take(taken as int)),
            forall|i: int|
                0 <= i < start.tokens.len() ==> !((#[trigger] start.tokens[i]).lexeme
                    is EndOfFile),
        decreases start.len() - taken,
    {
        let ghost before = list;
        match lexer.next() {
            Err(error) => {
                return Err(Error::Lexer(error));
            },
            Ok(token) => {
                match token.lexeme {
                    Lexeme::EndOfFile => {
                        assert(start.tokens.take(taken as int) =~= start.tokens);
                        return Ok(list);
                    },
                    lexeme => {
                        list.push(lexeme);
                        proof {
                            start.lemma_skip_skip(taken, 1);
                            lemma_views_push(before, list, lexeme);
                            assert(lexemes(start.tokens.take(taken as int)).push(lexeme@)
                                =~= lexemes(start.tokens.take((taken + 1) as int)));
                            taken = taken + 1;
                        }
                    },
                }
            },
        }
    }
}

/// Parses a source text: the blocks that it holds, in order; or the first
/// error that its tokens raise.
pub fn parse(input: &str) -> (result: Result<Vec<Statement>, Error>)
    ensures
        list_view(result) == program(lex(input@)),
{
    let mut lexer = Lexer::new(String::from_str(input));
    parse_program(&mut lexer)
}

/// The module that is generated from a source text for `target`; or the
/// first error that stops the lexer, the parser or the generator.
pub open spec fn generated(input: Seq<char>, target: Target) -> Result<ModuleView, ErrorView> {
    match program(lex(input)) {
        Err(error) => Err(error),
        Ok(statements) => match lower_program(target, statements) {
            Err(error) => Err(ErrorView::Generator(error)),
            Ok(module) => Ok(module),
        },
    }
}

/// Generates the module of a source text for `target`.
pub fn generate(input: &str, target: Target) -> (result: Result<Module, Error>)
    ensures
        match generated(input@, target) {
            Ok(module) => result matches Ok(made) && made@ == module,
            Err(error) => result matches Err(raised) && raised@ == error,
        },
{
    let statements = match parse(input) {
        Ok(statements) => statements,
        Err(error) => {
            return Err(error);
        },
    };
    match Module::generate(&statements, target) {
        Ok(module) => Ok(module),
        Err(error) => Err(Error::Generator(error)),
    }
}

/// The number of steps that a function is given when it is run after compilation.
pub const FUEL: u64 = 1_000_000;

/// What the compilation of a source text hands back. The source must hold
/// one statement and nothing behind it. With no function to run, the
/// outcome is zero. Else the function of that name is run on the reference
/// machine without arguments for at most [`FUEL`] steps, and its first
/// result is handed back, which must fit in 64 bits, or zero where it has
/// none.
pub open spec fn compiled(input: Seq<char>, function: Option<Seq<char>>) -> Result<u64, ErrorView> {
    match program(lex(input)) {
        Err(error) => Err(error),
        Ok(statements) => if statements.len() != 1 {
            Err(ErrorView::UnparsedParts)
        } else {
            match lower_program(Target::Generic, statements) {
                Err(error) => Err(ErrorView::Generator(error)),
                Ok(module) => match function {
                    None => Ok(0),
                    Some(name) => match function_named(module.functions, name) {
                        None => Err(ErrorView::Machine(Fault::UnknownFunction)),
                        Some(index) => match run_function(
                            module,
                            index,
                            Seq::empty(),
                            FUEL as nat,
                        ) {
                            Err(fault) => Err(ErrorView::Machine(fault)),
                            Ok(results) => if results.len() == 0 {
                                Ok(0)
                            } else if results[0].fits() {
                                Ok(results[0].limb0)
                            } else {
                                Err(ErrorView::Machine(Fault::Width))
                            },
                        },
                    },
                },
            }
        },
    }
}

/// Compiles a source text for the generic target and, where `function`
/// names one, runs that function on the reference machine.
pub fn compile(input: &str, function: &Option<&str>) -> (result: Result<u64, Error>)
    ensures
        match compiled(
            input@,
            match *function {
                Some(name) => Some(name@),
                None => None,
            },
        ) {
            Ok(word) => result == Ok::<u64, Error>(word),
            Err(error) => result matches Err(raised) && raised@ == error,
        },
{
    let statements = match parse(input) {
        Ok(statements) => statements,
        Err(error) => {
            return Err(error);
        },
    };
    if statements.len() != 1 {
        return Err(Error::UnparsedParts);
    }
    let module = match Module::generate(&statements, Target::Generic) {
        Ok(module) => module,
        Err(error) => {
            return Err(Error::Generator(error));
        },
    };
    let name = match function {
        Some(name) => *name,
        None => {
            return Ok(0);
        },
    };
    let index = match module.function_named(name) {
        Some(index) => index,
        None => {
            return Err(Error::Machine(Fault::UnknownFunction));
        },
    };
    match run(&module, index, Vec::new(), FUEL) {
        Err(fault) => Err(Error::Machine(fault)),
        Ok(results) => if results.len() == 0 {
            Ok(0)
        } else if results[0].is_small() {
            Ok(results[0].limb0)
        } else {
            Err(Error::Machine(Fault::Width))
        },
    }
}

/// Parsing is deterministic: whatever two runs of the parser hand back
/// for the same source text, the syntax trees are the same, and so are the
/// errors.
pub proof fn lemma_parse_deterministic(
    input: Seq<char>,
    first: Result<Vec<Statement>, Error>,
    second: Result<Vec<Statement>, Error>,
)
    requires
        list_view(first) == program(lex(input)),
        list_view(second) == program(lex(input)),
    ensures
        list_view(first) == list_view(second),
{
}

/// Comment text is not seen in the syntax tree: a source with a block
/// comment before it is parsed to the tree of the source alone, or both are
/// refused.
pub proof fn lemma_comment_invisible(body: Seq<char>, source: Seq<char>)
    requires
        comment_body(body),
    ensures
        agree_on_tree(program(lex(commented(body, source))), program(lex(source))),
{
    lemma_comment_skipped(body, source);
    lemma_program_same(lex(commented(body, source)), lex(source));
}

} // verus!
