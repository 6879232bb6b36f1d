//! How the machine runs the test of a case of a switch: the comparison of
//! the scrutinee with the literal of the case and the branch on its outcome.

use vstd::prelude::*;
use crate::generator::ir::Instruction;
use crate::generator::ir::IntPredicate;
use crate::generator::ir::Operand;
use crate::generator::machine::Activation;
use crate::generator::machine::StateView;
use crate::generator::machine::Step;
use crate::generator::machine::function_at;
use crate::generator::machine::next_in_block;
use crate::generator::module::ModuleView;
use crate::generator::word::Word;

verus! {

/// Whether the machine stands before the test of a case in `state`: the
/// next instruction of the block that it runs compares `literal` with the
/// scrutinee for equality, and the one behind it branches on the outcome
/// to `then_block` or to `else_block`.
pub open spec fn before_test(
    module: ModuleView,
    state: StateView,
    literal: Word,
    scrutinee: Operand,
    outcome: usize,
    then_block: usize,
    else_block: usize,
) -> bool {
    &&& state.frames.len() > 0
    &&& function_at(module, state.frames.last().function) matches Some(function)
        && function.code.len() < usize::MAX && outcome < function.registers
        && state.frames.last().registers + outcome < state.values.len()
        && (next_in_block(
        function.code,
        state.frames.last().block,
        state.frames.last().position as int,
    ) matches Some(first) && function.code[first].instruction == (Instruction::Compare {
        result: outcome,
        predicate: IntPredicate::Equal,
        left: Operand::Constant(literal),
        right: scrutinee,
    }) && (next_in_block(function.code, state.frames.last().block, first + 1) matches Some(
        second,
    ) && function.code[second].instruction == (Instruction::ConditionalBranch {
        condition: Operand::Register(outcome),
        then_block,
        else_block,
    })))
}

/// The state behind the test of a case: the outcome of the comparison is
/// in its register, and the machine stands at the start of `block`.
pub open spec fn behind_test(state: StateView, outcome: usize, equal: bool, block: usize) -> StateView {
    StateView {
        values: state.values.update(
            state.frames.last().registers + outcome,
            if equal {
                Word::small(1)
            } else {
                Word::small(0)
            },
        ),
        frames: state.frames.update(
            state.frames.len() - 1,
            Activation { block, position: 0, ..state.frames.last() },
        ),
        ..state
    }
}

/// The test of a case takes two steps. Where the scrutinee holds exactly
/// the number of the literal, the machine goes on at the start of the
/// block of the case; where it holds any other number, at the start of the
/// next test. Nothing but the register of the outcome changes.
pub proof fn lemma_test_runs(
    module: ModuleView,
    state: StateView,
    literal: Word,
    scrutinee: Operand,
    outcome: usize,
    then_block: usize,
    else_block: usize,
)
    requires
        before_test(module, state, literal, scrutinee, outcome, then_block, else_block),
        state.operand(
            function_at(module, state.frames.last().function)->0,
            scrutinee,
        ) is Some,
    ensures
        ({
            let function = function_at(module, state.frames.last().function)->0;
            let value = state.operand(function, scrutinee)->0;
            state.step(module) matches Step::Next(compared) && compared.step(module) == (
            if value.value() == literal.value() {
                Step::Next(behind_test(state, outcome, true, then_block))
            } else {
                Step::Next(behind_test(state, outcome, false, else_block))
            })
        }),
{
    let activation = state.frames.last();
    let function = function_at(module, activation.function)->0;
    let value = state.operand(function, scrutinee)->0;
    let first = next_in_block(function.code, activation.block, activation.position as int)->0;
    let second = next_in_block(function.code, activation.block, first + 1)->0;
    lemma_next_in_block(function.code, activation.block, activation.position as int);
    lemma_next_in_block(function.code, activation.block, first + 1);
    value.lemma_of_value();
    literal.lemma_of_value();
    let moved = state.at(activation.block, (first + 1) as usize);
    assert(moved.frames.last() == (Activation {
        block: activation.block,
        position: (first + 1) as usize,
        ..activation
    }));
    assert(moved.operand(function, scrutinee) == Some(value));
    assert(moved.operand(function, Operand::Constant(literal)) == Some(literal));
    let equal = literal == value;
    let flag = if equal {
        Word::small(1)
    } else {
        Word::small(0)
    };
    let compared = moved.with_register(function, outcome, flag)->0;
    assert(state.step(module) == Step::Next(compared));
    assert(compared.frames.last() == moved.frames.last());
    let branched = compared.at(activation.block, (second + 1) as usize);
    assert(branched.operand(function, Operand::Register(outcome)) == Some(flag));
    flag.lemma_of_value();
    let block = if equal {
        then_block
    } else {
        else_block
    };
    assert(branched.at(block, 0).frames =~= behind_test(state, outcome, equal, block).frames);
    assert(branched.at(block, 0).values =~= behind_test(state, outcome, equal, block).values);
    assert(branched.at(block, 0) == behind_test(state, outcome, equal, block));
}

/// The next instruction of a block stands at or behind the place that it
/// is looked for from, within the code.
pub proof fn lemma_next_in_block(code: Seq<crate::generator::ir::Placed>, block: usize, from: int)
    ensures
        next_in_block(code, block, from) matches Some(place) ==> from <= place < code.len()
            && code[place].block == block,
    decreases code.len() - from,
{
    if 0 <= from < code.len() && code[from].block != block {
        lemma_next_in_block(code, block, from + 1);
    }
}

} // verus!
