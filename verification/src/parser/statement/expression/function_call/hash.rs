//! Lowers the hash instruction.

use vstd::prelude::*;
use crate::generator::context::Context;
use crate::generator::context::ContextView;
use crate::generator::context::FIELD_SIZE;
use crate::generator::ir::AddressSpace;
use crate::generator::ir::BinaryOperator;
use crate::generator::ir::IntPredicate;
use crate::generator::ir::Intrinsic;
use crate::generator::ir::Label;
use crate::generator::ir::Operand;
use crate::generator::ir::Pointer;
verus! {

/// The context after the hash of the heap memory from `range_start` on,
/// `length` bytes long, has been generated in `context`.
///
/// Four blocks are made: the condition, the body, the increment and the
/// join. In the current block the first word of the range is loaded and
/// absorbed into a hash that starts anew; an index variable is made and set
/// to the place of the second word; the block then goes to the condition.
/// The condition goes to the body while the index is below the end of the
/// range, else to the join. The body loads the word at the index, absorbs
/// it, and goes to the increment, which moves the index one word on and
/// goes back to the condition. The join, where the generation goes on,
/// ends the hash; its output is the hash.
pub open spec fn keccak256_in(context: ContextView, range_start: Operand, length: Operand) -> (
    ContextView,
    Operand,
) {
    let condition_block = context.next_block();
    let made = context.append_block(Label::Keccak256Condition);
    let body_block = made.next_block();
    let made = made.append_block(Label::Keccak256Body);
    let increment_block = made.next_block();
    let made = made.append_block(Label::Keccak256Increment);
    let join_block = made.next_block();
    let made = made.append_block(Label::Keccak256Join);
    let word = Operand::number(FIELD_SIZE);
    // The first word.
    let first = made.next_value();
    let entry = made.load(Pointer { space: AddressSpace::Heap, offset: range_start });
    let entry = entry.call(Intrinsic::HashAbsorbReset, Some(first));
    let second = entry.next_value();
    let entry = entry.binary(BinaryOperator::Add, range_start, word);
    let rest = entry.next_value();
    let entry = entry.binary(BinaryOperator::Sub, length, word);
    let range_end = entry.next_value();
    let entry = entry.binary(BinaryOperator::Add, second, rest);
    let index = ContextView::variable(entry.frame.slots);
    let entry = entry.alloca().store(index, second).branch(condition_block);
    // The condition.
    let condition = entry.set_block(condition_block);
    let at = condition.next_value();
    let condition = condition.load(index);
    let below = condition.next_value();
    let condition = condition.compare(IntPredicate::UnsignedLess, at, range_end);
    let condition = condition.conditional_branch(below, body_block, join_block);
    // The increment.
    let increment = condition.set_block(increment_block);
    let at = increment.next_value();
    let increment = increment.load(index);
    let moved = increment.next_value();
    let increment = increment.binary(BinaryOperator::Add, at, word);
    let increment = increment.store(index, moved).branch(condition_block);
    // The body.
    let body = increment.set_block(body_block);
    let at = body.next_value();
    let body = body.load(index);
    let next = body.next_value();
    let body = body.load(Pointer { space: AddressSpace::Heap, offset: at });
    let body = body.call(Intrinsic::HashAbsorb, Some(next)).branch(increment_block);
    // The join.
    let join = body.set_block(join_block);
    (join.call(Intrinsic::HashOutput, None), join.next_value())
}

/// Lowers the hash instruction: `arguments` hold the start of the range
/// in heap memory and its length in bytes. Hands back the hash.
pub fn keccak256(context: &mut Context, arguments: [Operand; 2]) -> (result: Option<Operand>)
    requires
        old(context)@.well_formed(),
    ensures
        final(context)@ == keccak256_in(old(context)@, arguments[0], arguments[1]).0,
        result == Some(keccak256_in(old(context)@, arguments[0], arguments[1]).1),
        final(context)@.well_formed(),
        final(context)@.grown_from(old(context)@),
{
    let range_start = arguments[0];
    let length = arguments[1];

    let condition_block = context.append_basic_block(Label::Keccak256Condition);
    let body_block = context.append_basic_block(Label::Keccak256Body);
    let increment_block = context.append_basic_block(Label::Keccak256Increment);
    let join_block = context.append_basic_block(Label::Keccak256Join);

    let pointer = context.access_memory(range_start, AddressSpace::Heap);
    let value = context.build_load(pointer);
    context.build_call(Intrinsic::HashAbsorbReset, Some(value));
    let range_start = context.build_binary(
        BinaryOperator::Add,
        range_start,
        context.field_const(FIELD_SIZE),
    );
    let length = context.build_binary(BinaryOperator::Sub, length, context.field_const(FIELD_SIZE));
    let range_end = context.build_binary(BinaryOperator::Add, range_start, length);
    let index_pointer = context.build_alloca();
    context.build_store(index_pointer, range_start);

    context.build_unconditional_branch(condition_block);

    context.set_basic_block(condition_block);
    let index_value = context.build_load(index_pointer);
    let condition = context.build_int_compare(IntPredicate::UnsignedLess, index_value, range_end);
    context.build_conditional_branch(condition, body_block, join_block);

    context.set_basic_block(increment_block);
    let index_value = context.build_load(index_pointer);
    let incremented = context.build_binary(
        BinaryOperator::Add,
        index_value,
        context.field_const(FIELD_SIZE),
    );
    context.build_store(index_pointer, incremented);
    context.build_unconditional_branch(condition_block);

    context.set_basic_block(body_block);
    let index_value = context.build_load(index_pointer);
    let pointer = context.access_memory(index_value, AddressSpace::Heap);
    let value = context.build_load(pointer);
    context.build_call(Intrinsic::HashAbsorb, Some(value));
    context.build_unconditional_branch(increment_block);

    context.set_basic_block(join_block);
    let result = context.build_call(Intrinsic::HashOutput, None);
    proof {
        let before = old(context)@.frame;
        let after = context@.frame;
        let first = before.blocks.len() as int;
        assert(after.blocks.len() == first + 4);
        assert(after.current == first + 3);
        assert(after.blocks[first].terminated);
        assert(after.blocks[first + 1].terminated);
        assert(after.blocks[first + 2].terminated);
        assert(after.blocks[before.current as int].terminated);
        assert forall|b: int| 0 <= b < first && b != before.current implies #[trigger] after.blocks[b]
            == before.blocks[b] by {}
    }
    result
}

} // verus!
