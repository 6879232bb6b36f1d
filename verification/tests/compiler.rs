use yul_compiler::error::Error;
use yul_compiler::generator::machine::Fault;

fn compile(input: &str, run: &Option<&str>) -> u64 {
    yul_compiler::compile(input, run).expect("the source compiles and runs")
}

#[test]
fn void_function_should_compile() {
    compile("{function foo() {}}", &None);
}

#[test]
fn i256_function_should_compile() {
    compile("{function foo() -> x {}}", &None);
}

#[test]
fn literal_initialization_should_compile() {
    let result = compile("{function foo() -> x {let y := 5 x :=y }}", &Some("foo"));
    assert_eq!(result, 5);
    let result = compile("{function foo() -> x {let y := 1234567890123456789012345678 let z := 1234567890123456789012345679 x := sub(z, y) }}", &Some("foo"));
    assert_eq!(result, 1);
    let result = compile(
        "{function foo() -> x {let y := 0x2a x := y }}",
        &Some("foo"),
    );
    assert_eq!(result, 42);
    let result = compile("{function foo() -> x {let y := 0xffffffffffffffff let z := 0xfffffffffffffffe x := sub(y, z) }}", &Some("foo"));
    assert_eq!(result, 1);
}

#[test]
fn variable_initialization_should_compile() {
    compile("{function foo() -> x {let y := x}}", &None);
}

#[test]
fn builtin_call_should_compile() {
    let result = compile(
        "{function foo() -> x {let y := 3 x := add(3, y)}}",
        &Some("foo"),
    );
    assert_eq!(result, 6);
    let result = compile(
        "{function foo() -> x {let y := 3 x := sub(3, y)}}",
        &Some("foo"),
    );
    assert_eq!(result, 0);
    let result = compile(
        "{function foo() -> x {let y := 3 x := mul(3, y)}}",
        &Some("foo"),
    );
    assert_eq!(result, 9);
    let result = compile(
        "{function foo() -> x {let y := 3 x := div(3, y)}}",
        &Some("foo"),
    );
    assert_eq!(result, 1);
    let result = compile(
        "{function foo() -> x {let y := 3 x := sdiv(3, y)}}",
        &Some("foo"),
    );
    assert_eq!(result, 1);
    let result = compile(
        "{function foo() -> x {let y := 3 x := mod(3, y)}}",
        &Some("foo"),
    );
    assert_eq!(result, 0);
    let result = compile(
        "{function foo() -> x {let y := 3 x := smod(3, y)}}",
        &Some("foo"),
    );
    assert_eq!(result, 0);
}

#[test]
fn function_parameter_should_compile() {
    compile("{function foo(z) -> x {let y := 3 x := add(3, y)}}", &None);
}

#[test]
fn if_statement_should_compile() {
    let result = compile(
        "{function foo() -> x {x := 42 let y := 1 if lt(x, y) {x := add(y, 1)}}}",
        &Some("foo"),
    );
    assert_eq!(result, 42);
    let result = compile(
        "{function foo() -> x {x := 42 let y := 1 if gt(x, y) {x := add(y, 1)}}}",
        &Some("foo"),
    );
    assert_eq!(result, 2);
    let result = compile(
        "{function foo() -> x {x := 42 let y := 1 if eq(x, y) {x := add(y, 1)}}}",
        &Some("foo"),
    );
    assert_eq!(result, 42);
}

#[test]
fn switch_statement_should_compile() {
    let result = compile(
        "{function foo() -> x {x := 42 switch x case 1 {x := 22} default {x := 17}}}",
        &Some("foo"),
    );
    assert_eq!(result, 17);
}

#[test]
fn tests_leave_should_compile() {
    let result = compile(
        "{function foo() -> x {x := 42 if lt(x, 55) {leave} x := 43}}",
        &Some("foo"),
    );
    assert_eq!(result, 42);
}

#[test]
fn for_statement_should_compile() {
    let result = compile("{function foo() -> x { x:= 0 for { let i := 0} lt(i, 10) { i := add(i, 1) } { x := add(i, x)}}}", &Some("foo"));
    assert_eq!(result, 45);
}

#[test]
fn tests_continue_should_compile() {
    let result = compile("{function foo() -> x { x:= 0 for { let i := 0} lt(i, 10) { i := add(i, 1) } { if mod(i, 2) { continue } x := add(i, x) }}}", &Some("foo"));
    assert_eq!(result, 20);
}

#[test]
fn tests_break_should_compile() {
    let result = compile("{function foo() -> x { x:= 0 for { let i := 0} lt(i, 10) { i := add(i, 1) } { if gt(x, 18) { break } x := add(i, x) }}}", &Some("foo"));
    assert_eq!(result, 21);
}

#[test]
fn call_should_compile() {
    let result = compile(
        "{function bar() -> x { x:= 42 } function foo() -> x { x := bar()}}",
        &Some("foo"),
    );
    assert_eq!(result, 42);
}

#[test]
fn call_void_should_compile() {
    let result = compile(
        "{function bar() {} function foo() -> x { x := 42 bar()}}",
        &Some("foo"),
    );
    assert_eq!(result, 42);
}

#[test]
fn tuples_should_compile() {
    compile("{ function foo() -> x, y { }}", &None);
}

#[test]
fn sources_with_more_or_less_than_one_statement_are_not_compiled() {
    assert_eq!(
        yul_compiler::compile("{function foo() -> x { x := 1 }} {}", &Some("foo")),
        Err(Error::UnparsedParts)
    );
    assert_eq!(yul_compiler::compile("{} {}", &None), Err(Error::UnparsedParts));
    assert_eq!(yul_compiler::compile("", &None), Err(Error::UnparsedParts));
    assert_eq!(yul_compiler::compile("{}", &None), Ok(0));
}

#[test]
fn wide_literals_are_not_reduced() {
    let result = compile(
        "{function foo() -> x { switch 1 case 18446744073709551617 { x := 7 } case 1 { x := 8 } }}",
        &Some("foo"),
    );
    assert_eq!(result, 8);
    let result = compile(
        "{function foo() -> x { x := eq(18446744073709551617, 1) }}",
        &Some("foo"),
    );
    assert_eq!(result, 0);
    let result = compile(
        "{function foo() -> x { x := sub(0x10000000000000000000000000000000a, 0x100000000000000000000000000000003) }}",
        &Some("foo"),
    );
    assert_eq!(result, 7);
    assert_eq!(
        yul_compiler::compile(
            "{function foo() -> x { x := 18446744073709551616 }}",
            &Some("foo")
        ),
        Err(Error::Machine(Fault::Width))
    );
}
