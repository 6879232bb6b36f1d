use yul_compiler::lexer::Lexer;
use yul_compiler::parser::statement::block::Block;
use yul_compiler::parser::statement::expression::literal::Literal;
use yul_compiler::parser::statement::expression::Expression;
use yul_compiler::parser::statement::Statement;

fn parse(input: &str) -> Vec<Statement> {
    yul_compiler::parse(input).expect("the source parses")
}

#[test]
fn ok_nested() {
    let input = r#"{
            {}
        }"#;

    let expected = Block {
        statements: vec![Statement::Block(Block { statements: vec![] })],
    };

    let mut lexer = Lexer::new(input.to_owned());
    lexer.next().expect("the source starts with a token");
    assert_eq!(Ok(expected), Block::parse(&mut lexer, None));
}

#[test]
#[should_panic]
fn error_expected_bracket_curly_right() {
    let input = r#"{
            {}{}{{
        }"#;

    parse(input);
}

#[test]
fn mod_leave_should_compile() {
    let input = r#"{
            function foo() -> x {
                x := 42
                if lt(x, 55) {
                    leave
                }
                x := 43
            }
        }"#;

    assert!(yul_compiler::parse(input).is_ok());
}

#[test]
fn mod_continue_should_compile() {
    let input = r#"{
            function foo() -> x {
                x := 0
                for { let i := 0 } lt(i, 10) { i := add(i, 1) } {
                    if mod(i, 2) {
                        continue
                    }
                    x := add(i, x)
                }
            }
        }"#;

    assert!(yul_compiler::parse(input).is_ok());
}

#[test]
fn mod_break_should_compile() {
    let input = r#"{
            function foo() -> x {
                x:= 0
                for { let i := 0 } lt(i, 10) { i := add(i, 1) } {
                    if gt(x, 18) {
                        break
                    }
                    x := add(i, x)
                }
            }
        }"#;

    assert!(yul_compiler::parse(input).is_ok());
}

#[test]
fn ok_empty() {
    let input = r#"object "Test" { code {
            for {} expr {} {}
        }}"#;

    assert!(yul_compiler::parse(input).is_ok());
}

#[test]
fn ok_complex() {
    let input = r#"object "Test" { code {
            function foo() -> x {
                x := 0
                for { let i := 0 } lt(i, 10) { i := add(i, 1) } {
                    x := add(i, x)
                }
            }
        }}"#;

    assert!(yul_compiler::parse(input).is_ok());
}

#[test]
fn comment_should_not_be_parsed() {
    assert_eq!(
        parse("/*123 comment ***/{}"),
        [Statement::Block(Block { statements: vec![] })]
    );
}

#[test]
#[should_panic]
fn ill_formed_comment_should_panic() {
    parse("/* xxx yyy");
}

#[test]
#[should_panic]
fn badly_named_function_should_panic() {
    parse("{ function 42(){}}");
}

#[test]
#[should_panic]
fn function_with_bad_parameter_list_should_panic() {
    parse("{ function 42){}}");
}

#[test]
fn well_formed_void_function_should_be_parsed() {
    parse("{function foo(a : A, b){}}");
}

#[test]
fn well_formed_non_void_function_should_be_parsed() {
    parse("{function foo(a : A, b) -> x: T, z: Y {}}");
}

#[test]
fn vardecl_true_should_be_parsed() {
    parse("{let x := true}");
}

#[test]
fn vardecl_false_should_be_parsed() {
    parse("{let x := false}");
}

#[test]
fn vardecl_string_should_be_parsed() {
    parse("{let x := \"abc\"}");
}

#[test]
fn vardecl_dec_number_should_be_parsed() {
    parse("{let x := 42}");
}

#[test]
fn vardecl_hex_number_should_be_parsed() {
    parse("{let x := 0x42}");
}

#[test]
fn vardecl_identifier_should_be_parsed() {
    parse("{let x := y}");
}

#[test]
fn vardecl_function_call_should_be_parsed() {
    parse("{let x := foo()}");
    parse("{let x := foo(x, y)}");
    parse("{let x := foo(bar(x, baz()))}");
}

#[test]
fn if_statement_should_be_parsed() {
    parse("{if expr {}}");
}

#[test]
#[should_panic]
fn ill_formed_switch_statement_should_panic() {
    parse("{switch {}}");
    parse("{switch expr default {} case 3 {}}");
}

#[test]
fn for_loop_should_be_parsed() {
    parse("{for {} expr {}{}}");
}

#[test]
fn keywords_should_not_be_parsed_as_identifiers() {
    let kw_break = parse("{break}");
    let kw_continue = parse("{continue}");
    let kw_leave = parse("{leave}");
    assert_eq!(
        kw_break,
        [Statement::Block(Block {
            statements: vec![Statement::Break]
        })]
    );
    assert_eq!(
        kw_continue,
        [Statement::Block(Block {
            statements: vec![Statement::Continue]
        })]
    );
    assert_eq!(
        kw_leave,
        [Statement::Block(Block {
            statements: vec![Statement::Leave]
        })]
    );
}

#[test]
fn true_false_should_be_parsed_as_literals() {
    let kw_true = parse("{true}");
    let kw_false = parse("{false}");
    assert_eq!(
        kw_true,
        [Statement::Block(Block {
            statements: vec![Statement::Expression(Expression::Literal(Literal {
                value: "true".to_string()
            }))]
        })]
    );
    assert_eq!(
        kw_false,
        [Statement::Block(Block {
            statements: vec![Statement::Expression(Expression::Literal(Literal {
                value: "false".to_string()
            }))]
        })]
    );
}

#[test]
fn expressions_should_be_parsed() {
    parse("{id 3 foo(x, y)}");
}

#[test]
fn assignments_should_be_parsed() {
    parse("{x := foo(x)}");
    parse("{x,y := foo(x)}");
}

#[test]
#[should_panic]
fn ill_formed_assignment_should_panic() {
    parse("{x := }");
}

#[test]
#[should_panic]
fn id_list_wo_assignment_should_panic() {
    parse("{x,y}");
}
