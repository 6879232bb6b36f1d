//! Lowers the transaction return operations.

use vstd::prelude::*;
use crate::generator::context::Context;
use crate::generator::context::ContextView;
use crate::generator::context::FIELD_SIZE;
use crate::generator::context::OFFSET_CALL_RETURN_DATA;
use crate::generator::context::OFFSET_RETURN_DATA_SIZE;
use crate::generator::ir::AddressSpace;
use crate::generator::ir::BinaryOperator;
use crate::generator::ir::Intrinsic;
use crate::generator::ir::Operand;
use crate::generator::ir::Pointer;
verus! {

/// The context after the hand-over of `size` bytes of heap memory at
/// `source` to the frame that called has been generated in `context`, with
/// a branch to `exit` behind it.
///
/// The size is rounded up to whole words; the rounded size, counted in
/// words, is stored in the parent's memory at the place of the size of the
/// returned data; as many bytes as the rounded size says are copied to the
/// parent's memory at the place of the returned data; then the block goes
/// to `exit`.
pub open spec fn transfer_in(context: ContextView, source: Operand, size: Operand, exit: usize) -> ContextView {
    let rounded = context.ceil32_value(size);
    let marshalled = context.ceil32(size);
    let cells = marshalled.next_value();
    marshalled.binary(BinaryOperator::UnsignedDiv, rounded, Operand::number(FIELD_SIZE)).store(
        Pointer {
            space: AddressSpace::Parent,
            offset: Operand::number((OFFSET_RETURN_DATA_SIZE * FIELD_SIZE) as u64),
        },
        cells,
    ).memcpy(
        Intrinsic::MemoryCopyToParent,
        Pointer {
            space: AddressSpace::Parent,
            offset: Operand::number((OFFSET_CALL_RETURN_DATA * FIELD_SIZE) as u64),
        },
        Pointer { space: AddressSpace::Heap, offset: source },
        rounded,
    ).branch(exit)
}

/// Generates the hand-over of returned data and the branch to `exit`.
fn transfer(context: &mut Context, arguments: [Operand; 2], exit: usize)
    requires
        old(context)@.well_formed(),
        exit < old(context)@.frame.blocks.len(),
    ensures
        final(context)@ == transfer_in(old(context)@, arguments[0], arguments[1], exit),
        final(context)@.well_formed(),
        final(context)@.grown_from(old(context)@),
{
    let source = context.access_memory(arguments[0], AddressSpace::Heap);

    let destination = context.access_memory(
        context.field_const(OFFSET_CALL_RETURN_DATA * FIELD_SIZE),
        AddressSpace::Parent,
    );

    let size = arguments[1];
    let size_adjusted = context.ceil32(size);

    let parent_pointer_return_data_size = context.access_memory(
        context.field_const(OFFSET_RETURN_DATA_SIZE * FIELD_SIZE),
        AddressSpace::Parent,
    );
    let cells = context.build_binary(
        BinaryOperator::UnsignedDiv,
        size_adjusted,
        context.field_const(FIELD_SIZE),
    );
    context.build_store(parent_pointer_return_data_size, cells);

    context.build_memcpy(Intrinsic::MemoryCopyToParent, destination, source, size_adjusted);

    context.build_unconditional_branch(exit);
}

/// Lowers the normal return: `arguments` hold the place of the data in
/// heap memory and its size in bytes. The data is handed over to the frame
/// that called and the block goes to the return block of the function.
pub fn return_data(context: &mut Context, arguments: [Operand; 2]) -> (result: Option<Operand>)
    requires
        old(context)@.well_formed(),
    ensures
        final(context)@ == transfer_in(
            old(context)@,
            arguments[0],
            arguments[1],
            old(context)@.frame.return_block,
        ),
        result is None,
        final(context)@.well_formed(),
        final(context)@.grown_from(old(context)@),
{
    let exit = context.frame.return_block;
    transfer(context, arguments, exit);
    None
}

/// Lowers the revert: `arguments` hold the place of the data in heap
/// memory and its size in bytes. The data is handed over to the frame that
/// called and the block goes to the throw block of the function.
pub fn revert(context: &mut Context, arguments: [Operand; 2]) -> (result: Option<Operand>)
    requires
        old(context)@.well_formed(),
    ensures
        final(context)@ == transfer_in(
            old(context)@,
            arguments[0],
            arguments[1],
            old(context)@.frame.throw_block,
        ),
        result is None,
        final(context)@.well_formed(),
        final(context)@.grown_from(old(context)@),
{
    let exit = context.frame.throw_block;
    transfer(context, arguments, exit);
    None
}

/// The normal return and the revert differ in the block that they go to
/// and in nothing else: all but the last instruction is the same, and so
/// are the blocks, the registers and the variables.
pub proof fn lemma_return_and_revert(context: ContextView, source: Operand, size: Operand)
    requires
        context.well_formed(),
    ensures
        ({
            let returned = transfer_in(context, source, size, context.frame.return_block);
            let reverted = transfer_in(context, source, size, context.frame.throw_block);
            &&& returned.frame.code.len() == reverted.frame.code.len()
            &&& returned.frame.code.drop_last() == reverted.frame.code.drop_last()
            &&& returned.frame.blocks == reverted.frame.blocks
            &&& returned.frame.registers == reverted.frame.registers
            &&& returned.frame.slots == reverted.frame.slots
            &&& returned.frame.current == reverted.frame.current
            &&& returned.functions == reverted.functions
        }),
{
    let returned = transfer_in(context, source, size, context.frame.return_block);
    let reverted = transfer_in(context, source, size, context.frame.throw_block);
    assert(returned.frame.code.drop_last() =~= reverted.frame.code.drop_last());
    assert(returned.frame.blocks =~= reverted.frame.blocks);
}

} // verus!
