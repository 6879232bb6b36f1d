use yul_compiler::error::Error;
use yul_compiler::lexer::location::Location;
use yul_compiler::lexer::token::Keyword;
use yul_compiler::lexer::token::Lexeme;
use yul_compiler::lexer::token::Symbol;
use yul_compiler::lexer::Lexer;
use yul_compiler::parser::error::Error as ParserError;
use yul_compiler::parser::error::Expected;
use yul_compiler::parser::identifier::Identifier;
use yul_compiler::parser::statement::assignment::Assignment;
use yul_compiler::parser::statement::block::Block;
use yul_compiler::parser::statement::expression::function_call::FunctionCall;
use yul_compiler::parser::statement::expression::literal::Literal;
use yul_compiler::parser::statement::expression::Expression;
use yul_compiler::parser::statement::for_loop::ForLoop;
use yul_compiler::parser::statement::function_definition::FunctionDefinition;
use yul_compiler::parser::statement::if_conditional::IfConditional;
use yul_compiler::parser::statement::switch::Case;
use yul_compiler::parser::statement::switch::Switch;
use yul_compiler::parser::statement::variable_declaration::VariableDeclaration;
use yul_compiler::parser::statement::Statement;

fn name(text: &str) -> Identifier {
    Identifier {
        name: text.to_owned(),
        yul_type: None,
    }
}

fn typed(text: &str, yul_type: &str) -> Identifier {
    Identifier {
        name: text.to_owned(),
        yul_type: Some(yul_type.to_owned()),
    }
}

fn literal(text: &str) -> Literal {
    Literal {
        value: text.to_owned(),
    }
}

fn call(function: &str, arguments: Vec<Expression>) -> Expression {
    Expression::FunctionCall(FunctionCall {
        name: function.to_owned(),
        arguments,
    })
}

fn variable(text: &str) -> Expression {
    Expression::Identifier(text.to_owned())
}

fn unexpected(line: usize, column: usize, expected: Vec<Expected>, found: Lexeme) -> Error {
    Error::Parser(ParserError::ExpectedOneOf {
        location: Location { line, column },
        expected,
        found,
    })
}

#[test]
fn comment_text_is_not_in_the_tree() {
    assert_eq!(
        yul_compiler::parse("/*anything*/{}"),
        yul_compiler::parse("{}")
    );
    assert_eq!(
        yul_compiler::parse("{ let /* a */ x // b\n := /* c */ 1 }"),
        yul_compiler::parse("{ let x := 1 }")
    );
}

#[test]
fn parsing_is_repeatable() {
    let input = "{ function f(a) -> b { b := add(a, 1) } }";
    assert_eq!(yul_compiler::parse(input), yul_compiler::parse(input));
}

#[test]
fn function_definition_is_parsed_into_its_parts() {
    assert_eq!(
        yul_compiler::parse("{function foo(a : A, b) -> x: T, z {leave}}"),
        Ok(vec![Statement::Block(Block {
            statements: vec![Statement::FunctionDefinition(FunctionDefinition {
                name: "foo".to_owned(),
                arguments: vec![typed("a", "A"), name("b")],
                result: vec![typed("x", "T"), name("z")],
                body: Block {
                    statements: vec![Statement::Leave]
                },
            })]
        })])
    );
}

#[test]
fn declarations_and_assignments_are_parsed_into_their_parts() {
    assert_eq!(
        yul_compiler::parse("{let a, b: T := f(1, \"s\") let c a, c := g() h}"),
        Ok(vec![Statement::Block(Block {
            statements: vec![
                Statement::VariableDeclaration(VariableDeclaration {
                    bindings: vec![name("a"), typed("b", "T")],
                    expression: Some(call(
                        "f",
                        vec![
                            Expression::Literal(literal("1")),
                            Expression::Literal(literal("\"s\""))
                        ]
                    )),
                }),
                Statement::VariableDeclaration(VariableDeclaration {
                    bindings: vec![name("c")],
                    expression: None,
                }),
                Statement::Assignment(Assignment {
                    bindings: vec![name("a"), name("c")],
                    initializer: call("g", vec![]),
                }),
                Statement::Expression(variable("h")),
            ]
        })])
    );
}

#[test]
fn control_flow_is_parsed_into_its_parts() {
    assert_eq!(
        yul_compiler::parse(
            "{if c {break} switch x case 1 {} case true {continue} default {leave} for {let i} i {} {{}}}"
        ),
        Ok(vec![Statement::Block(Block {
            statements: vec![
                Statement::IfConditional(IfConditional {
                    condition: variable("c"),
                    block: Block {
                        statements: vec![Statement::Break]
                    },
                }),
                Statement::Switch(Switch {
                    expression: variable("x"),
                    cases: vec![
                        Case {
                            literal: literal("1"),
                            block: Block { statements: vec![] },
                        },
                        Case {
                            literal: literal("true"),
                            block: Block {
                                statements: vec![Statement::Continue]
                            },
                        },
                    ],
                    default: Some(Block {
                        statements: vec![Statement::Leave]
                    }),
                }),
                Statement::ForLoop(ForLoop {
                    initializer: Block {
                        statements: vec![Statement::VariableDeclaration(VariableDeclaration {
                            bindings: vec![name("i")],
                            expression: None,
                        })]
                    },
                    condition: variable("i"),
                    finalizer: Block { statements: vec![] },
                    body: Block {
                        statements: vec![Statement::Block(Block { statements: vec![] })]
                    },
                }),
            ]
        })])
    );
}

#[test]
fn object_stands_for_the_block_of_its_code() {
    assert_eq!(
        yul_compiler::parse("object \"Test\" { code { leave } } {}"),
        Ok(vec![
            Statement::Block(Block {
                statements: vec![Statement::Leave]
            }),
            Statement::Block(Block { statements: vec![] }),
        ])
    );
    assert_eq!(
        yul_compiler::parse("object Test { code { } }"),
        Err(unexpected(
            1,
            8,
            vec![Expected::Literal],
            Lexeme::Identifier("Test".to_owned())
        ))
    );
    assert_eq!(
        yul_compiler::parse("object \"Test\" { data { } }"),
        Err(unexpected(
            1,
            17,
            vec![Expected::Keyword(Keyword::Code)],
            Lexeme::Identifier("data".to_owned())
        ))
    );
}

#[test]
fn switch_without_case_and_default_is_refused() {
    assert_eq!(
        yul_compiler::parse("{switch x}"),
        Err(unexpected(
            1,
            10,
            vec![
                Expected::Keyword(Keyword::Case),
                Expected::Keyword(Keyword::Default)
            ],
            Lexeme::Symbol(Symbol::BracketCurlyRight)
        ))
    );
    assert_eq!(
        yul_compiler::parse("{switch f(1)\n  let y}"),
        Err(unexpected(
            2,
            3,
            vec![
                Expected::Keyword(Keyword::Case),
                Expected::Keyword(Keyword::Default)
            ],
            Lexeme::Keyword(Keyword::Let)
        ))
    );
    assert_eq!(
        yul_compiler::parse("{switch x"),
        Err(unexpected(
            2,
            1,
            vec![
                Expected::Keyword(Keyword::Case),
                Expected::Keyword(Keyword::Default)
            ],
            Lexeme::EndOfFile
        ))
    );
    assert!(yul_compiler::parse("{switch {}}").is_err());
    assert!(yul_compiler::parse("{switch expr default {} case 3 {}}").is_err());
    assert!(yul_compiler::parse("{switch expr default {}}").is_ok());
    assert!(yul_compiler::parse("{switch expr case 3 {}}").is_ok());
}

#[test]
fn assignment_without_expression_is_refused() {
    assert_eq!(
        yul_compiler::parse("{x := }"),
        Err(unexpected(
            1,
            7,
            vec![Expected::Identifier, Expected::Literal],
            Lexeme::Symbol(Symbol::BracketCurlyRight)
        ))
    );
}

#[test]
fn names_without_assignment_are_refused() {
    assert_eq!(
        yul_compiler::parse("{x,y}"),
        Err(unexpected(
            1,
            5,
            vec![Expected::Symbol(Symbol::Assignment)],
            Lexeme::Symbol(Symbol::BracketCurlyRight)
        ))
    );
}

#[test]
fn open_block_at_the_end_of_the_source_is_refused() {
    let error = yul_compiler::parse("{\n {}{}{{\n}").expect_err("a block is left open");
    match error {
        Error::Parser(ParserError::ExpectedOneOf {
            location,
            expected,
            found,
        }) => {
            assert_eq!(location, Location { line: 4, column: 1 });
            assert_eq!(found, Lexeme::EndOfFile);
            assert_eq!(expected.len(), 12);
            assert!(expected.contains(&Expected::Symbol(Symbol::BracketCurlyRight)));
        }
        other => panic!("not a syntax error: {:?}", other),
    }
}

#[test]
fn tokens_outside_any_block_are_refused() {
    assert_eq!(
        yul_compiler::parse("leave"),
        Err(unexpected(
            1,
            1,
            vec![
                Expected::Symbol(Symbol::BracketCurlyLeft),
                Expected::Keyword(Keyword::Object)
            ],
            Lexeme::Keyword(Keyword::Leave)
        ))
    );
}

#[test]
fn badly_formed_functions_are_refused() {
    assert_eq!(
        yul_compiler::parse("{ function 42(){}}"),
        Err(unexpected(
            1,
            12,
            vec![Expected::Identifier],
            Lexeme::Literal(yul_compiler::lexer::token::Literal::Integer("42".to_owned()))
        ))
    );
    assert_eq!(
        yul_compiler::parse("{ function f(a b){}}"),
        Err(unexpected(
            1,
            16,
            vec![
                Expected::Symbol(Symbol::Comma),
                Expected::Symbol(Symbol::ParenthesisRight)
            ],
            Lexeme::Identifier("b".to_owned())
        ))
    );
    assert_eq!(
        yul_compiler::parse("{ function f() x {}}"),
        Err(unexpected(
            1,
            16,
            vec![
                Expected::Symbol(Symbol::Arrow),
                Expected::Symbol(Symbol::BracketCurlyLeft)
            ],
            Lexeme::Identifier("x".to_owned())
        ))
    );
}

#[test]
fn call_arguments_need_commas() {
    assert_eq!(
        yul_compiler::parse("{ f(a b) }"),
        Err(unexpected(
            1,
            7,
            vec![
                Expected::Symbol(Symbol::Comma),
                Expected::Symbol(Symbol::ParenthesisRight)
            ],
            Lexeme::Identifier("b".to_owned())
        ))
    );
}

#[test]
fn lexical_errors_stop_the_parser() {
    match yul_compiler::parse("{ let x := # }") {
        Err(Error::Lexer(_)) => {}
        other => panic!("not a lexical error: {:?}", other),
    }
}

#[test]
fn statement_parser_takes_keywords_only() {
    let mut lexer = Lexer::new("leave x".to_owned());
    assert_eq!(Statement::parse(&mut lexer, None), Ok(Statement::Leave));
    let result = Statement::parse(&mut lexer, None);
    assert_eq!(
        result,
        Err(unexpected(
            1,
            7,
            vec![
                Expected::Keyword(Keyword::Function),
                Expected::Keyword(Keyword::Let),
                Expected::Keyword(Keyword::If),
                Expected::Keyword(Keyword::Switch),
                Expected::Keyword(Keyword::For),
                Expected::Keyword(Keyword::Break),
                Expected::Keyword(Keyword::Continue),
                Expected::Keyword(Keyword::Leave),
            ],
            Lexeme::Identifier("x".to_owned())
        ))
    );
}

#[test]
fn parsers_start_with_the_token_that_they_are_given() {
    let mut lexer = Lexer::new("for {} c {} {} switch x default {} rest".to_owned());
    let keyword = lexer.next().expect("a keyword");
    assert_eq!(
        Statement::parse(&mut lexer, Some(keyword)),
        Ok(Statement::ForLoop(ForLoop {
            initializer: Block { statements: vec![] },
            condition: variable("c"),
            finalizer: Block { statements: vec![] },
            body: Block { statements: vec![] },
        }))
    );
    lexer.next().expect("a keyword");
    let first = lexer.next().expect("a name");
    assert_eq!(
        Switch::parse(&mut lexer, Some(first)),
        Ok(Switch {
            expression: variable("x"),
            cases: vec![],
            default: Some(Block { statements: vec![] }),
        })
    );
    assert_eq!(
        lexer.next().map(|token| token.lexeme),
        Ok(Lexeme::Identifier("rest".to_owned()))
    );
}

#[test]
fn for_loop_parser_reads_from_the_lexer() {
    let mut lexer = Lexer::new("{ let i := 0 } lt(i, 2) { } { leave }".to_owned());
    let parsed = ForLoop::parse(&mut lexer, None).expect("a loop");
    assert_eq!(parsed.condition, call("lt", vec![variable("i"), Expression::Literal(literal("2"))]));
    assert_eq!(
        parsed.body,
        Block {
            statements: vec![Statement::Leave]
        }
    );
    let mut lexer = Lexer::new("x {} {} {}".to_owned());
    assert_eq!(
        ForLoop::parse(&mut lexer, None),
        Err(unexpected(
            1,
            1,
            vec![Expected::Symbol(Symbol::BracketCurlyLeft)],
            Lexeme::Identifier("x".to_owned())
        ))
    );
}

#[test]
fn block_statement_becomes_its_block() {
    let block = Statement::Block(Block {
        statements: vec![Statement::Break],
    })
    .into_block();
    assert_eq!(
        block,
        Block {
            statements: vec![Statement::Break]
        }
    );
}
