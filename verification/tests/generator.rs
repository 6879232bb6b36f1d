use yul_compiler::error::Error;
use yul_compiler::generator::context::Context;
use yul_compiler::generator::context::Target;
use yul_compiler::generator::error::Error as GeneratorError;
use yul_compiler::generator::ir::AddressSpace;
use yul_compiler::generator::ir::BasicBlock;
use yul_compiler::generator::ir::BinaryOperator;
use yul_compiler::generator::ir::Instruction;
use yul_compiler::generator::ir::IntPredicate;
use yul_compiler::generator::ir::Intrinsic;
use yul_compiler::generator::ir::Label;
use yul_compiler::generator::ir::LoopFrame;
use yul_compiler::generator::ir::Operand;
use yul_compiler::generator::ir::Placed;
use yul_compiler::generator::ir::Pointer;
use yul_compiler::generator::literal::read_literal;
use yul_compiler::generator::module::Module;
use yul_compiler::generator::word::Word;
use yul_compiler::parser::statement::block::Block;
use yul_compiler::parser::statement::expression::literal::Literal;
use yul_compiler::parser::statement::expression::Expression;
use yul_compiler::parser::statement::function_definition::FunctionDefinition;
use yul_compiler::parser::statement::switch::Switch;
use yul_compiler::parser::statement::Statement;
use yul_compiler::parser::statement::expression::function_call::context::get;
use yul_compiler::parser::statement::expression::function_call::context::ContextValue;
use yul_compiler::parser::statement::expression::function_call::hash::keccak256;
use yul_compiler::parser::statement::expression::function_call::transaction::return_data;
use yul_compiler::parser::statement::expression::function_call::transaction::revert;

fn constant(value: u64) -> Operand {
    Operand::Constant(Word::from_u64(value))
}

fn wide(limb0: u64, limb1: u64, limb2: u64, limb3: u64) -> Word {
    Word {
        limb0,
        limb1,
        limb2,
        limb3,
    }
}

fn stack(slot: u64) -> Pointer {
    Pointer {
        space: AddressSpace::Stack,
        offset: constant(slot),
    }
}

fn heap(offset: Operand) -> Pointer {
    Pointer {
        space: AddressSpace::Heap,
        offset,
    }
}

fn parent(offset: u64) -> Pointer {
    Pointer {
        space: AddressSpace::Parent,
        offset: constant(offset),
    }
}

fn placed(block: usize, instruction: Instruction) -> Placed {
    Placed { block, instruction }
}

fn block(label: Label, terminated: bool) -> BasicBlock {
    BasicBlock { label, terminated }
}

fn failure(input: &str) -> Error {
    yul_compiler::generate(input, Target::Generic).expect_err("the source is not lowered")
}

#[test]
fn new_context_holds_the_three_blocks_of_a_function() {
    let context = Context::new(Target::Machine);
    assert_eq!(context.target, Target::Machine);
    assert_eq!(
        context.frame.blocks,
        vec![
            block(Label::Entry, false),
            block(Label::Return, true),
            block(Label::Throw, true)
        ]
    );
    assert_eq!(
        context.frame.code,
        vec![
            placed(1, Instruction::Return),
            placed(2, Instruction::Throw)
        ]
    );
    assert_eq!(context.frame.current, 0);
    assert_eq!(context.frame.return_block, 1);
    assert_eq!(context.frame.throw_block, 2);
    assert!(context.frame.loops.is_empty());
    assert!(context.functions.is_empty());
}

#[test]
fn first_branch_of_a_block_wins() {
    let mut context = Context::new(Target::Generic);
    let first = context.append_basic_block(Label::IfMain);
    let second = context.append_basic_block(Label::IfJoin);
    assert_eq!((first, second), (3, 4));
    context.build_unconditional_branch(first);
    context.build_unconditional_branch(second);
    context.build_conditional_branch(constant(1), first, second);
    assert_eq!(
        context.frame.code[2..],
        [placed(0, Instruction::Branch { target: 3 })]
    );
    assert!(context.frame.blocks[0].terminated);
    context.set_basic_block(second);
    context.build_conditional_branch(constant(1), first, second);
    assert_eq!(
        context.frame.code[3..],
        [placed(
            4,
            Instruction::ConditionalBranch {
                condition: constant(1),
                then_block: 3,
                else_block: 4
            }
        )]
    );
}

#[test]
fn loop_frames_are_a_stack() {
    let mut context = Context::new(Target::Generic);
    context.push_loop(1, 2);
    context.push_loop(2, 0);
    assert_eq!(
        context.frame.loops,
        vec![
            LoopFrame {
                continue_block: 1,
                break_block: 2
            },
            LoopFrame {
                continue_block: 2,
                break_block: 0
            }
        ]
    );
    context.pop_loop();
    assert_eq!(
        context.frame.loops,
        vec![LoopFrame {
            continue_block: 1,
            break_block: 2
        }]
    );
}

#[test]
fn rounding_adds_31_divides_and_multiplies_by_32() {
    let mut context = Context::new(Target::Generic);
    let rounded = context.ceil32(constant(33));
    assert_eq!(rounded, Operand::Register(2));
    assert_eq!(
        context.frame.code[2..],
        [
            placed(
                0,
                Instruction::Binary {
                    result: 0,
                    operator: BinaryOperator::Add,
                    left: constant(33),
                    right: constant(31)
                }
            ),
            placed(
                0,
                Instruction::Binary {
                    result: 1,
                    operator: BinaryOperator::UnsignedDiv,
                    left: Operand::Register(0),
                    right: constant(32)
                }
            ),
            placed(
                0,
                Instruction::Binary {
                    result: 2,
                    operator: BinaryOperator::Mul,
                    left: Operand::Register(1),
                    right: constant(32)
                }
            ),
        ]
    );
    assert_eq!(context.frame.registers, 3);
}

#[test]
fn context_getter_is_zero_for_the_generic_target() {
    let mut context = Context::new(Target::Generic);
    assert_eq!(
        get(&mut context, ContextValue::Caller),
        Some(constant(0))
    );
    assert_eq!(context.frame.code.len(), 2);

    let mut context = Context::new(Target::Machine);
    assert_eq!(
        get(&mut context, ContextValue::Caller),
        Some(Operand::Register(0))
    );
    assert_eq!(
        context.frame.code[2..],
        [placed(
            0,
            Instruction::Intrinsic {
                result: Some(0),
                intrinsic: Intrinsic::GetFromContext,
                argument: Some(constant(1))
            }
        )]
    );
    assert_eq!(ContextValue::Address.into_selector(), 0);
    assert_eq!(ContextValue::GasLeft.into_selector(), 5);
}

fn transfer(exit: usize) -> Vec<Placed> {
    vec![
        placed(
            0,
            Instruction::Binary {
                result: 0,
                operator: BinaryOperator::Add,
                left: constant(40),
                right: constant(31),
            },
        ),
        placed(
            0,
            Instruction::Binary {
                result: 1,
                operator: BinaryOperator::UnsignedDiv,
                left: Operand::Register(0),
                right: constant(32),
            },
        ),
        placed(
            0,
            Instruction::Binary {
                result: 2,
                operator: BinaryOperator::Mul,
                left: Operand::Register(1),
                right: constant(32),
            },
        ),
        placed(
            0,
            Instruction::Binary {
                result: 3,
                operator: BinaryOperator::UnsignedDiv,
                left: Operand::Register(2),
                right: constant(32),
            },
        ),
        placed(
            0,
            Instruction::Store {
                pointer: parent(32),
                value: Operand::Register(3),
            },
        ),
        placed(
            0,
            Instruction::MemoryCopy {
                intrinsic: Intrinsic::MemoryCopyToParent,
                destination: parent(256),
                source: heap(constant(64)),
                size: Operand::Register(2),
            },
        ),
        placed(0, Instruction::Branch { target: exit }),
    ]
}

#[test]
fn return_and_revert_differ_in_their_exit_only() {
    let mut returned = Context::new(Target::Machine);
    assert_eq!(
        return_data(
            &mut returned,
            [constant(64), constant(40)]
        ),
        None
    );
    assert_eq!(returned.frame.code[2..], transfer(1)[..]);

    let mut reverted = Context::new(Target::Machine);
    assert_eq!(
        revert(
            &mut reverted,
            [constant(64), constant(40)]
        ),
        None
    );
    assert_eq!(reverted.frame.code[2..], transfer(2)[..]);
    assert_eq!(returned.frame.blocks, reverted.frame.blocks);
    assert!(returned.frame.blocks[0].terminated);
}

#[test]
fn hash_is_lowered_into_a_loop_over_the_words() {
    let mut context = Context::new(Target::Machine);
    let result = keccak256(
        &mut context,
        [constant(128), constant(96)],
    );
    assert_eq!(result, Some(Operand::Register(10)));
    assert_eq!(
        context.frame.blocks,
        vec![
            block(Label::Entry, true),
            block(Label::Return, true),
            block(Label::Throw, true),
            block(Label::Keccak256Condition, true),
            block(Label::Keccak256Body, true),
            block(Label::Keccak256Increment, true),
            block(Label::Keccak256Join, false),
        ]
    );
    assert_eq!(context.frame.current, 6);
    let word = constant(32);
    assert_eq!(
        context.frame.code[2..],
        [
            placed(
                0,
                Instruction::Load {
                    result: 0,
                    pointer: heap(constant(128))
                }
            ),
            placed(
                0,
                Instruction::Intrinsic {
                    result: None,
                    intrinsic: Intrinsic::HashAbsorbReset,
                    argument: Some(Operand::Register(0))
                }
            ),
            placed(
                0,
                Instruction::Binary {
                    result: 1,
                    operator: BinaryOperator::Add,
                    left: constant(128),
                    right: word
                }
            ),
            placed(
                0,
                Instruction::Binary {
                    result: 2,
                    operator: BinaryOperator::Sub,
                    left: constant(96),
                    right: word
                }
            ),
            placed(
                0,
                Instruction::Binary {
                    result: 3,
                    operator: BinaryOperator::Add,
                    left: Operand::Register(1),
                    right: Operand::Register(2)
                }
            ),
            placed(0, Instruction::Allocate { slot: 0 }),
            placed(
                0,
                Instruction::Store {
                    pointer: stack(0),
                    value: Operand::Register(1)
                }
            ),
            placed(0, Instruction::Branch { target: 3 }),
            placed(
                3,
                Instruction::Load {
                    result: 4,
                    pointer: stack(0)
                }
            ),
            placed(
                3,
                Instruction::Compare {
                    result: 5,
                    predicate: IntPredicate::UnsignedLess,
                    left: Operand::Register(4),
                    right: Operand::Register(3)
                }
            ),
            placed(
                3,
                Instruction::ConditionalBranch {
                    condition: Operand::Register(5),
                    then_block: 4,
                    else_block: 6
                }
            ),
            placed(
                5,
                Instruction::Load {
                    result: 6,
                    pointer: stack(0)
                }
            ),
            placed(
                5,
                Instruction::Binary {
                    result: 7,
                    operator: BinaryOperator::Add,
                    left: Operand::Register(6),
                    right: word
                }
            ),
            placed(
                5,
                Instruction::Store {
                    pointer: stack(0),
                    value: Operand::Register(7)
                }
            ),
            placed(5, Instruction::Branch { target: 3 }),
            placed(
                4,
                Instruction::Load {
                    result: 8,
                    pointer: stack(0)
                }
            ),
            placed(
                4,
                Instruction::Load {
                    result: 9,
                    pointer: heap(Operand::Register(8))
                }
            ),
            placed(
                4,
                Instruction::Intrinsic {
                    result: None,
                    intrinsic: Intrinsic::HashAbsorb,
                    argument: Some(Operand::Register(9))
                }
            ),
            placed(4, Instruction::Branch { target: 5 }),
            placed(
                6,
                Instruction::Intrinsic {
                    result: Some(10),
                    intrinsic: Intrinsic::HashOutput,
                    argument: None
                }
            ),
        ]
    );
}

#[test]
fn for_loop_is_lowered_into_four_blocks() {
    let module = yul_compiler::generate(
        "{ for { let i := 0 } lt(i, 3) { i := add(i, 1) } { if i { continue } break } }",
        Target::Generic,
    )
    .expect("the source is lowered");
    assert!(module.functions.is_empty());
    let entry = &module.entry;
    assert_eq!(
        entry.blocks,
        vec![
            block(Label::Entry, true),
            block(Label::Return, true),
            block(Label::Throw, true),
            block(Label::ForCondition, true),
            block(Label::ForBody, true),
            block(Label::ForIncrement, true),
            block(Label::ForJoin, true),
            block(Label::IfMain, true),
            block(Label::IfJoin, true),
        ]
    );
    let branches: Vec<Placed> = entry
        .code
        .iter()
        .copied()
        .filter(|placed| {
            matches!(
                placed.instruction,
                Instruction::Branch { .. } | Instruction::ConditionalBranch { .. }
            )
        })
        .collect();
    assert_eq!(
        branches,
        vec![
            placed(0, Instruction::Branch { target: 3 }),
            placed(
                3,
                Instruction::ConditionalBranch {
                    condition: Operand::Register(2),
                    then_block: 4,
                    else_block: 6
                }
            ),
            placed(
                4,
                Instruction::ConditionalBranch {
                    condition: Operand::Register(4),
                    then_block: 7,
                    else_block: 8
                }
            ),
            placed(7, Instruction::Branch { target: 5 }),
            placed(8, Instruction::Branch { target: 6 }),
            placed(5, Instruction::Branch { target: 3 }),
            placed(6, Instruction::Branch { target: 1 }),
        ]
    );
    assert_eq!(
        entry.code[3],
        placed(
            0,
            Instruction::Store {
                pointer: stack(0),
                value: constant(0)
            }
        )
    );
    assert_eq!(
        entry.code[6],
        placed(
            3,
            Instruction::Compare {
                result: 1,
                predicate: IntPredicate::UnsignedLess,
                left: Operand::Register(0),
                right: constant(3)
            }
        )
    );
    assert_eq!(
        entry.code[7],
        placed(
            3,
            Instruction::Truncate {
                result: 2,
                value: Operand::Register(1),
                bits: 1
            }
        )
    );
}

#[test]
fn switch_tests_the_cases_in_their_order() {
    let module = yul_compiler::generate(
        "{ let x := 2 switch x case 1 { leave } case 2 { } default { x := 3 } }",
        Target::Generic,
    )
    .expect("the source is lowered");
    let entry = &module.entry;
    assert_eq!(
        entry.blocks,
        vec![
            block(Label::Entry, true),
            block(Label::Return, true),
            block(Label::Throw, true),
            block(Label::SwitchJoin, true),
            block(Label::SwitchCaseConstant(1), true),
            block(Label::SwitchCaseBranch(1), true),
            block(Label::SwitchCaseConstant(2), true),
            block(Label::SwitchCaseBranch(2), true),
            block(Label::SwitchCaseConstant(3), true),
        ]
    );
    assert_eq!(
        entry.code[4..],
        [
            placed(0, Instruction::Branch { target: 4 }),
            placed(5, Instruction::Branch { target: 1 }),
            placed(
                4,
                Instruction::Load {
                    result: 0,
                    pointer: stack(0)
                }
            ),
            placed(
                4,
                Instruction::Compare {
                    result: 1,
                    predicate: IntPredicate::Equal,
                    left: constant(1),
                    right: Operand::Register(0)
                }
            ),
            placed(
                4,
                Instruction::ConditionalBranch {
                    condition: Operand::Register(1),
                    then_block: 5,
                    else_block: 6
                }
            ),
            placed(7, Instruction::Branch { target: 3 }),
            placed(
                6,
                Instruction::Load {
                    result: 2,
                    pointer: stack(0)
                }
            ),
            placed(
                6,
                Instruction::Compare {
                    result: 3,
                    predicate: IntPredicate::Equal,
                    left: constant(2),
                    right: Operand::Register(2)
                }
            ),
            placed(
                6,
                Instruction::ConditionalBranch {
                    condition: Operand::Register(3),
                    then_block: 7,
                    else_block: 8
                }
            ),
            placed(
                8,
                Instruction::Store {
                    pointer: stack(0),
                    value: constant(3)
                }
            ),
            placed(8, Instruction::Branch { target: 3 }),
            placed(3, Instruction::Branch { target: 1 }),
        ]
    );
}

#[test]
fn switch_without_cases_is_its_default() {
    let with_switch =
        yul_compiler::generate("{ let x switch x default { x := 1 } }", Target::Generic);
    let without = yul_compiler::generate("{ let x { x := 1 } }", Target::Generic);
    assert!(with_switch.is_ok());
    assert_eq!(with_switch, without);
}

#[test]
fn functions_are_declared_before_they_are_defined() {
    let module = yul_compiler::generate(
        "{ function a() -> x { x := b(1) } function b(p) -> y { y := p } }",
        Target::Generic,
    )
    .expect("the source is lowered");
    assert_eq!(module.functions.len(), 2);
    assert_eq!(module.functions[0].name, "a");
    assert_eq!(module.functions[1].name, "b");
    assert_eq!(
        (module.functions[1].parameters, module.functions[1].results),
        (1, 1)
    );
    assert_eq!(module.functions[1].slots, 2);
    assert_eq!(module.function_named("b"), Some(1));
    assert_eq!(module.function_named("c"), None);
    assert_eq!(
        module.functions[0].code[2..],
        [
            placed(0, Instruction::Allocate { slot: 0 }),
            placed(
                0,
                Instruction::Argument {
                    value: constant(1)
                }
            ),
            placed(0, Instruction::Call { function: 1 }),
            placed(
                0,
                Instruction::Result {
                    result: 0,
                    index: 0
                }
            ),
            placed(
                0,
                Instruction::Store {
                    pointer: stack(0),
                    value: Operand::Register(0)
                }
            ),
            placed(0, Instruction::Branch { target: 1 }),
        ]
    );
}

#[test]
fn break_and_continue_need_a_loop() {
    assert_eq!(
        failure("{ break }"),
        Error::Generator(GeneratorError::BreakOutsideLoop)
    );
    assert_eq!(
        failure("{ continue }"),
        Error::Generator(GeneratorError::ContinueOutsideLoop)
    );
    assert_eq!(
        failure("{ for {} 1 {} { function f() { break } } }"),
        Error::Generator(GeneratorError::BreakOutsideLoop)
    );
    assert_eq!(
        failure("{ for { break } 1 {} {} }"),
        Error::Generator(GeneratorError::BreakOutsideLoop)
    );
    assert!(yul_compiler::generate("{ for {} 1 { break } { continue } }", Target::Generic).is_ok());
    assert!(yul_compiler::generate("{ leave }", Target::Generic).is_ok());
}

#[test]
fn names_must_be_declared() {
    assert_eq!(
        failure("{ x := 1 }"),
        Error::Generator(GeneratorError::UndeclaredVariable)
    );
    assert_eq!(
        failure("{ let y := x }"),
        Error::Generator(GeneratorError::UndeclaredVariable)
    );
    assert_eq!(
        failure("{ { let x } x := 1 }"),
        Error::Generator(GeneratorError::UndeclaredVariable)
    );
    assert_eq!(
        failure("{ for { let i } i {} {} i := 1 }"),
        Error::Generator(GeneratorError::UndeclaredVariable)
    );
    assert_eq!(
        failure("{ let x function f() -> y { y := x } }"),
        Error::Generator(GeneratorError::UndeclaredVariable)
    );
    assert_eq!(
        failure("{ f() }"),
        Error::Generator(GeneratorError::UndeclaredFunction)
    );
    assert_eq!(
        failure("{ { function f() {} } f() }"),
        Error::Generator(GeneratorError::UndeclaredFunction)
    );
}

#[test]
fn counts_of_arguments_and_values_must_match() {
    assert_eq!(
        failure("{ let x := add(1) }"),
        Error::Generator(GeneratorError::ArgumentCount)
    );
    assert_eq!(
        failure("{ function f(a) {} f() }"),
        Error::Generator(GeneratorError::ArgumentCount)
    );
    assert_eq!(
        failure("{ function f() {} let x := f() }"),
        Error::Generator(GeneratorError::ValueCount)
    );
    assert_eq!(
        failure("{ let x, y := 1 }"),
        Error::Generator(GeneratorError::ValueCount)
    );
    assert_eq!(
        failure("{ function f() -> a, b {} let x := add(f(), 1) }"),
        Error::Generator(GeneratorError::ValueCount)
    );
    assert_eq!(
        failure("{ function f() -> a, b {} if f() {} }"),
        Error::Generator(GeneratorError::ValueCount)
    );
}

#[test]
fn trees_built_by_hand_are_checked() {
    let empty = Switch {
        expression: Expression::Literal(Literal {
            value: "1".to_owned(),
        }),
        cases: vec![],
        default: None,
    };
    assert_eq!(
        Module::generate(&vec![Statement::Switch(empty)], Target::Generic),
        Err(GeneratorError::EmptySwitch)
    );
    let literal = Expression::Literal(Literal {
        value: "12a".to_owned(),
    });
    assert_eq!(
        Module::generate(&vec![Statement::Expression(literal)], Target::Generic),
        Err(GeneratorError::InvalidLiteral)
    );
    let definition = FunctionDefinition {
        name: "f".to_owned(),
        arguments: vec![],
        result: vec![],
        body: Block { statements: vec![] },
    };
    assert_eq!(
        Module::generate(
            &vec![Statement::FunctionDefinition(definition)],
            Target::Generic
        ),
        Err(GeneratorError::UndeclaredFunction)
    );
}

#[test]
fn literals_stand_for_words() {
    let small = |value: u64| Some(Word::from_u64(value));
    assert_eq!(read_literal(&"true".to_owned()), small(1));
    assert_eq!(read_literal(&"false".to_owned()), small(0));
    assert_eq!(read_literal(&"0".to_owned()), small(0));
    assert_eq!(read_literal(&"42".to_owned()), small(42));
    assert_eq!(read_literal(&"0x2A".to_owned()), small(42));
    assert_eq!(read_literal(&"0xff".to_owned()), small(255));
    assert_eq!(
        read_literal(&"18446744073709551615".to_owned()),
        small(u64::MAX)
    );
    assert_eq!(read_literal(&"\"\"".to_owned()), small(0));
    assert_eq!(read_literal(&"\"ab\"".to_owned()), small(0x6162));
    assert_eq!(read_literal(&"".to_owned()), None);
    assert_eq!(read_literal(&"0x".to_owned()), None);
    assert_eq!(read_literal(&"1f".to_owned()), None);
    assert_eq!(read_literal(&"\"".to_owned()), None);
    assert_eq!(read_literal(&"abc".to_owned()), None);
}

#[test]
fn literals_beyond_64_bits_are_kept_exactly() {
    assert_eq!(
        read_literal(&"18446744073709551616".to_owned()),
        Some(wide(0, 1, 0, 0))
    );
    assert_eq!(
        read_literal(&"18446744073709551617".to_owned()),
        Some(wide(1, 1, 0, 0))
    );
    assert_eq!(
        read_literal(&"0x10000000000000001".to_owned()),
        Some(wide(1, 1, 0, 0))
    );
    assert_eq!(
        read_literal(&"1234567890123456789012345678".to_owned()),
        Some(wide(
            1234567890123456789012345678u128 as u64,
            (1234567890123456789012345678u128 >> 64) as u64,
            0,
            0
        ))
    );
    assert_eq!(
        read_literal(&"0x0123456789abcdef00000000000000010000000000000002fedcba9876543210".to_owned()),
        Some(wide(0xfedcba9876543210, 2, 1, 0x0123456789abcdef))
    );
    assert_eq!(
        read_literal(
            &"115792089237316195423570985008687907853269984665640564039457584007913129639935"
                .to_owned()
        ),
        Some(wide(u64::MAX, u64::MAX, u64::MAX, u64::MAX))
    );
}

#[test]
fn literals_beyond_the_word_are_refused() {
    assert_eq!(
        read_literal(
            &"115792089237316195423570985008687907853269984665640564039457584007913129639936"
                .to_owned()
        ),
        None
    );
    assert_eq!(
        read_literal(&"0x10000000000000000000000000000000000000000000000000000000000000000".to_owned()),
        None
    );
    assert_eq!(
        read_literal(&"\"abcdefghijklmnopqrstuvwxyzABCDEFG\"".to_owned()),
        None
    );
    assert_eq!(
        yul_compiler::generate(
            "{ let x := 0x10000000000000000000000000000000000000000000000000000000000000000 }",
            Target::Generic
        ),
        Err(Error::Generator(GeneratorError::InvalidLiteral))
    );
}

#[test]
fn case_literals_are_compared_exactly() {
    let module = yul_compiler::generate(
        "{ function f(x) -> r { switch x case 18446744073709551617 { r := 1 } case 1 { r := 2 } } }",
        Target::Generic,
    )
    .expect("the source is lowered");
    let compared: Vec<Operand> = module.functions[0]
        .code
        .iter()
        .filter_map(|placed| match placed.instruction {
            Instruction::Compare { left, .. } => Some(left),
            _ => None,
        })
        .collect();
    assert_eq!(
        compared,
        vec![Operand::Constant(wide(1, 1, 0, 0)), constant(1)]
    );
}

#[test]
fn generated_functions_name_their_own_blocks_only() {
    let module = yul_compiler::generate(
        "{ function f(a) -> r { for { let i := 0 } lt(i, a) { i := add(i, 1) } { \
             switch i case 1 { continue } case 2 { break } default { r := add(r, g(i)) } } } \
           function g(x) -> y { if x { y := 1 leave } y := keccak256(0, 32) } \
           let z := f(3) }",
        Target::Machine,
    )
    .expect("the source is lowered");
    let mut functions: Vec<&yul_compiler::generator::ir::Function> =
        module.functions.iter().collect();
    functions.push(&module.entry);
    assert_eq!(functions.len(), 3);
    for function in functions {
        let blocks = function.blocks.len();
        assert!(function.return_block < blocks);
        assert!(function.throw_block < blocks);
        for placed in function.code.iter() {
            assert!(placed.block < blocks);
            match placed.instruction {
                Instruction::Branch { target } => assert!(target < blocks),
                Instruction::ConditionalBranch {
                    then_block,
                    else_block,
                    ..
                } => assert!(then_block < blocks && else_block < blocks),
                _ => {}
            }
        }
        for (number, block) in function.blocks.iter().enumerate() {
            let ended = function.code.iter().any(|placed| {
                placed.block == number
                    && matches!(
                        placed.instruction,
                        Instruction::Branch { .. }
                            | Instruction::ConditionalBranch { .. }
                            | Instruction::Return
                            | Instruction::Throw
                    )
            });
            assert_eq!(block.terminated, ended);
        }
    }
}
