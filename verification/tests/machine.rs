use yul_compiler::error::Error;
use yul_compiler::generator::context::Target;
use yul_compiler::generator::ir::BinaryOperator;
use yul_compiler::generator::ir::IntPredicate;
use yul_compiler::generator::machine::compare;
use yul_compiler::generator::machine::compute;
use yul_compiler::generator::machine::run;
use yul_compiler::generator::machine::truncate;
use yul_compiler::generator::machine::Fault;
use yul_compiler::generator::word::Word;

fn word(value: u64) -> Word {
    Word::from_u64(value)
}

fn minus(value: u64) -> Word {
    compute(BinaryOperator::Sub, word(0), word(value)).expect("a difference is always computed")
}

fn wide(limb0: u64, limb1: u64, limb2: u64, limb3: u64) -> Word {
    Word {
        limb0,
        limb1,
        limb2,
        limb3,
    }
}

fn words(values: &[u64]) -> Vec<Word> {
    values.iter().map(|value| word(*value)).collect()
}

fn call(input: &str, function: &str, arguments: Vec<Word>) -> Result<Vec<Word>, Fault> {
    let module = yul_compiler::generate(input, Target::Generic).expect("the source is lowered");
    let index = module
        .function_named(function)
        .expect("the function is defined");
    run(&module, index, arguments, 100_000)
}

#[test]
fn sums_and_differences_wrap_at_the_word() {
    let all = wide(u64::MAX, u64::MAX, u64::MAX, u64::MAX);
    assert_eq!(compute(BinaryOperator::Add, word(u64::MAX), word(2)), Some(wide(1, 1, 0, 0)));
    assert_eq!(compute(BinaryOperator::Add, all, word(2)), Some(word(1)));
    assert_eq!(
        compute(BinaryOperator::Add, wide(u64::MAX, u64::MAX, 0, 0), word(1)),
        Some(wide(0, 0, 1, 0))
    );
    assert_eq!(compute(BinaryOperator::Sub, word(1), word(2)), Some(all));
    assert_eq!(compute(BinaryOperator::Sub, word(7), word(5)), Some(word(2)));
    assert_eq!(
        compute(BinaryOperator::Sub, wide(0, 0, 1, 0), word(1)),
        Some(wide(u64::MAX, u64::MAX, 0, 0))
    );
    assert_eq!(minus(1), all);
    assert_eq!(minus(0), word(0));
}

#[test]
fn products_are_exact_or_refused() {
    assert_eq!(compute(BinaryOperator::Mul, word(6), word(7)), Some(word(42)));
    assert_eq!(compute(BinaryOperator::Mul, word(1 << 63), word(2)), Some(wide(0, 1, 0, 0)));
    assert_eq!(
        compute(BinaryOperator::Mul, word(u64::MAX), word(u64::MAX)),
        Some(wide(1, u64::MAX - 1, 0, 0))
    );
    assert_eq!(compute(BinaryOperator::Mul, wide(0, 1, 0, 0), word(2)), None);
    assert_eq!(compute(BinaryOperator::Mul, word(2), minus(1)), None);
}

#[test]
fn division_by_zero_is_zero() {
    assert_eq!(compute(BinaryOperator::UnsignedDiv, word(7), word(0)), Some(word(0)));
    assert_eq!(compute(BinaryOperator::UnsignedRem, word(7), word(0)), Some(word(0)));
    assert_eq!(compute(BinaryOperator::SignedDiv, minus(7), word(0)), Some(word(0)));
    assert_eq!(compute(BinaryOperator::SignedRem, minus(7), word(0)), Some(word(0)));
    assert_eq!(compute(BinaryOperator::UnsignedDiv, wide(0, 1, 0, 0), word(0)), Some(word(0)));
    assert_eq!(compute(BinaryOperator::UnsignedDiv, word(7), word(2)), Some(word(3)));
    assert_eq!(compute(BinaryOperator::UnsignedRem, word(7), word(2)), Some(word(1)));
    assert_eq!(compute(BinaryOperator::UnsignedDiv, wide(0, 1, 0, 0), word(2)), None);
    assert_eq!(compute(BinaryOperator::UnsignedRem, word(2), wide(0, 1, 0, 0)), None);
}

#[test]
fn signed_division_rounds_towards_zero() {
    assert_eq!(compute(BinaryOperator::SignedDiv, minus(7), word(2)), Some(minus(3)));
    assert_eq!(compute(BinaryOperator::SignedDiv, word(7), minus(2)), Some(minus(3)));
    assert_eq!(compute(BinaryOperator::SignedDiv, minus(7), minus(2)), Some(word(3)));
    assert_eq!(compute(BinaryOperator::SignedDiv, word(7), word(2)), Some(word(3)));
    assert_eq!(compute(BinaryOperator::SignedRem, minus(7), word(2)), Some(minus(1)));
    assert_eq!(compute(BinaryOperator::SignedRem, word(7), minus(2)), Some(word(1)));
    assert_eq!(compute(BinaryOperator::SignedRem, minus(7), minus(2)), Some(minus(1)));
    assert_eq!(
        compute(BinaryOperator::SignedDiv, wide(0, 0, 0, 1 << 63), minus(1)),
        None
    );
}

#[test]
fn bits_and_shifts() {
    let left = wide(0b1100, 1, 0, 0b0101);
    let right = wide(0b1010, 1, 7, 0b0011);
    assert_eq!(compute(BinaryOperator::And, left, right), Some(wide(0b1000, 1, 0, 0b0001)));
    assert_eq!(compute(BinaryOperator::Or, left, right), Some(wide(0b1110, 1, 7, 0b0111)));
    assert_eq!(compute(BinaryOperator::Xor, left, right), Some(wide(0b0110, 0, 7, 0b0110)));
    assert_eq!(compute(BinaryOperator::ShiftLeft, word(1), word(63)), Some(word(1 << 63)));
    assert_eq!(compute(BinaryOperator::ShiftLeft, word(3), word(63)), Some(wide(1 << 63, 1, 0, 0)));
    assert_eq!(compute(BinaryOperator::ShiftLeft, word(1), word(64)), None);
    assert_eq!(compute(BinaryOperator::ShiftLeft, left, word(1)), None);
    assert_eq!(compute(BinaryOperator::ShiftLeft, left, word(256)), Some(word(0)));
    assert_eq!(compute(BinaryOperator::ShiftLeft, left, wide(0, 1, 0, 0)), Some(word(0)));
    assert_eq!(compute(BinaryOperator::ShiftRight, word(u64::MAX), word(63)), Some(word(1)));
    assert_eq!(compute(BinaryOperator::ShiftRight, word(u64::MAX), word(64)), None);
    assert_eq!(compute(BinaryOperator::ShiftRight, left, word(300)), Some(word(0)));
    assert_eq!(truncate(word(0b1011), 1), word(1));
    assert_eq!(truncate(word(0b1010), 1), word(0));
    assert_eq!(truncate(wide(0b1011, 5, 6, 7), 1), word(1));
    assert_eq!(truncate(word(0xabcd), 8), word(0xcd));
    assert_eq!(truncate(minus(1), 63), word(u64::MAX >> 1));
    assert_eq!(truncate(minus(1), 64), word(u64::MAX));
    assert_eq!(truncate(minus(1), 130), wide(u64::MAX, u64::MAX, 3, 0));
    assert_eq!(truncate(minus(1), 256), minus(1));
    assert_eq!(truncate(minus(1), 0), word(0));
}

#[test]
fn comparisons_are_exact_and_signed_where_asked() {
    assert!(compare(IntPredicate::Equal, word(3), word(3)));
    assert!(!compare(IntPredicate::Equal, word(3), word(4)));
    assert!(!compare(IntPredicate::Equal, wide(1, 1, 0, 0), word(1)));
    assert!(compare(IntPredicate::UnsignedLess, word(u64::MAX), wide(0, 1, 0, 0)));
    assert!(compare(IntPredicate::UnsignedLess, wide(9, 1, 0, 0), wide(0, 2, 0, 0)));
    assert!(compare(IntPredicate::UnsignedLess, word(3), minus(1)));
    assert!(!compare(IntPredicate::SignedLess, word(3), minus(1)));
    assert!(compare(IntPredicate::SignedLess, minus(2), minus(1)));
    assert!(compare(IntPredicate::SignedGreater, word(3), minus(1)));
    assert!(compare(IntPredicate::UnsignedGreater, minus(1), word(3)));
    assert!(!compare(IntPredicate::SignedGreater, minus(1), word(3)));
    assert!(!compare(IntPredicate::UnsignedLess, word(3), word(3)));
}

#[test]
fn functions_take_arguments_and_yield_results() {
    let input = "{ function swap(a, b) -> x, y { x := b y := a } \
                   function both() -> p, q { p, q := swap(1, 2) } \
                   function twice(n) -> r { r := add(n, n) } }";
    assert_eq!(call(input, "swap", words(&[7, 9])), Ok(words(&[9, 7])));
    assert_eq!(call(input, "both", words(&[])), Ok(words(&[2, 1])));
    assert_eq!(call(input, "twice", words(&[21])), Ok(words(&[42])));
    assert_eq!(call(input, "twice", words(&[])), Err(Fault::Arguments));
    assert_eq!(call(input, "twice", words(&[1, 2])), Err(Fault::Arguments));
}

#[test]
fn recursion_keeps_the_variables_of_each_call_apart() {
    let input = "{ function fact(n) -> r { r := 1 if gt(n, 1) { r := mul(n, fact(sub(n, 1))) } } }";
    assert_eq!(call(input, "fact", words(&[0])), Ok(words(&[1])));
    assert_eq!(call(input, "fact", words(&[5])), Ok(words(&[120])));
    assert_eq!(call(input, "fact", words(&[10])), Ok(words(&[3628800])));
}

#[test]
fn switch_takes_the_first_case_that_matches() {
    let input = "{ function pick(v) -> r { switch v case 1 { r := 10 } case 2 { r := 20 } case 1 { r := 30 } default { r := 40 } } \
                   function bare(v) -> r { r := 5 switch v case 7 { r := 6 } } }";
    assert_eq!(call(input, "pick", words(&[1])), Ok(words(&[10])));
    assert_eq!(call(input, "pick", words(&[2])), Ok(words(&[20])));
    assert_eq!(call(input, "pick", words(&[3])), Ok(words(&[40])));
    assert_eq!(call(input, "bare", words(&[7])), Ok(words(&[6])));
    assert_eq!(call(input, "bare", words(&[8])), Ok(words(&[5])));
}

#[test]
fn loops_nest() {
    let input = "{ function grid(n) -> c { \
                     for { let i := 0 } lt(i, n) { i := add(i, 1) } { \
                       for { let j := 0 } lt(j, n) { j := add(j, 1) } { \
                         if eq(j, 2) { break } \
                         if eq(i, 1) { continue } \
                         c := add(c, 1) } } } }";
    assert_eq!(call(input, "grid", words(&[0])), Ok(words(&[0])));
    assert_eq!(call(input, "grid", words(&[2])), Ok(words(&[2])));
    assert_eq!(call(input, "grid", words(&[4])), Ok(words(&[6])));
}

#[test]
fn finalizer_runs_after_continue_and_not_after_break() {
    let input = "{ function count() -> f { \
                     for { let i := 0 } lt(i, 5) { i := add(i, 1) f := add(f, 1) } { \
                       if eq(i, 3) { break } continue } } }";
    assert_eq!(call(input, "count", words(&[])), Ok(words(&[3])));
}

#[test]
fn heap_memory_holds_what_is_stored() {
    let input = "{ function memory() -> r { mstore(64, 7) mstore(96, 8) mstore(64, 9) r := add(mload(64), mload(96)) } \
                   function fresh() -> r { r := mload(1024) } }";
    assert_eq!(call(input, "memory", words(&[])), Ok(words(&[17])));
    assert_eq!(call(input, "fresh", words(&[])), Ok(words(&[0])));
}

#[test]
fn builtins_compute_on_words() {
    let input = "{ function f(a, b) -> r { r := add(shl(4, a), shr(1, b)) } \
                   function g(a) -> r { r := add(iszero(a), not(0)) } \
                   function h(a, b) -> r { r := add(mul(slt(a, b), 10), sgt(a, b)) } \
                   function k(a, b) -> r { r := xor(and(a, b), or(a, b)) } }";
    assert_eq!(call(input, "f", words(&[1, 6])), Ok(words(&[19])));
    assert_eq!(call(input, "g", words(&[0])), Ok(words(&[0])));
    assert_eq!(call(input, "g", words(&[5])), Ok(vec![minus(1)]));
    assert_eq!(call(input, "h", vec![minus(1), word(1)]), Ok(words(&[10])));
    assert_eq!(call(input, "h", vec![word(1), minus(1)]), Ok(words(&[1])));
    assert_eq!(call(input, "k", words(&[0b1100, 0b1010])), Ok(words(&[0b0110])));
}

#[test]
fn context_is_zero_on_the_generic_target() {
    let input = "{ function who() -> r { r := add(caller(), 3) } }";
    assert_eq!(call(input, "who", words(&[])), Ok(words(&[3])));
    let module = yul_compiler::generate(input, Target::Machine).expect("the source is lowered");
    assert_eq!(run(&module, 0, words(&[]), 100), Err(Fault::Intrinsic));
}

#[test]
fn intrinsics_stop_the_machine() {
    let input = "{ function hash() -> r { r := keccak256(0, 64) } \
                   function back() { return(0, 32) } \
                   function fail() { revert(0, 32) } }";
    assert_eq!(call(input, "hash", words(&[])), Err(Fault::Intrinsic));
    assert_eq!(call(input, "back", words(&[])), Err(Fault::Intrinsic));
    assert_eq!(call(input, "fail", words(&[])), Err(Fault::Intrinsic));
}

#[test]
fn fuel_bounds_the_run() {
    let input = "{ function spin() { for {} 1 {} {} } function one() -> r { r := 1 } }";
    assert_eq!(call(input, "spin", words(&[])), Err(Fault::OutOfFuel));
    assert_eq!(
        yul_compiler::compile(input, &Some("spin")),
        Err(Error::Machine(Fault::OutOfFuel))
    );
    let module = yul_compiler::generate(input, Target::Generic).expect("the source is lowered");
    assert_eq!(run(&module, 1, words(&[]), 0), Err(Fault::OutOfFuel));
    assert_eq!(run(&module, 1, words(&[]), 3), Err(Fault::OutOfFuel));
    assert_eq!(run(&module, 1, words(&[]), 4), Ok(words(&[1])));
}

#[test]
fn functions_that_are_not_there_cannot_be_run() {
    let input = "{ function one() -> r { r := 1 } }";
    let module = yul_compiler::generate(input, Target::Generic).expect("the source is lowered");
    assert_eq!(run(&module, 2, words(&[]), 10), Err(Fault::UnknownFunction));
    assert_eq!(
        yul_compiler::compile(input, &Some("two")),
        Err(Error::Machine(Fault::UnknownFunction))
    );
    assert_eq!(yul_compiler::compile(input, &None), Ok(0));
    assert_eq!(yul_compiler::compile("{ function none() {} }", &Some("none")), Ok(0));
}

#[test]
fn code_outside_functions_is_the_entry() {
    let module =
        yul_compiler::generate("{ let x := 1 } { let y := 2 }", Target::Generic).expect("lowered");
    assert_eq!(module.functions.len(), 0);
    assert_eq!(module.entry.slots, 2);
    assert_eq!(run(&module, 0, words(&[]), 100), Ok(words(&[])));
}

#[test]
fn dead_code_behind_leave_is_not_run() {
    let input = "{ function f() -> x { x := 1 leave x := 2 } }";
    assert_eq!(call(input, "f", words(&[])), Ok(words(&[1])));
}
