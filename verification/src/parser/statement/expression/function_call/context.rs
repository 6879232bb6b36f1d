//! Lowers the contract context getter calls.

use vstd::prelude::*;
use crate::generator::context::Context;
use crate::generator::context::ContextView;
use crate::generator::context::Target;
use crate::generator::ir::Intrinsic;
use crate::generator::ir::Operand;
verus! {

/// The values of the contract context that the source can read.
#[derive(Debug, Clone, Copy, PartialEq, Eq, Structural)]
pub enum ContextValue {
    /// The address of the contract.
    Address,
    /// The address that called.
    Caller,
    /// The value sent with the call.
    CallValue,
    /// The time of the block.
    Timestamp,
    /// The number of the block.
    Number,
    /// The gas that is left.
    GasLeft,
}

impl ContextValue {
    /// The number that selects the value in the intrinsic call.
    pub open spec fn selector(self) -> u64 {
        match self {
            ContextValue::Address => 0,
            ContextValue::Caller => 1,
            ContextValue::CallValue => 2,
            ContextValue::Timestamp => 3,
            ContextValue::Number => 4,
            ContextValue::GasLeft => 5,
        }
    }

    /// The number that selects the value in the intrinsic call.
    pub fn into_selector(self) -> (selector: u64)
        ensures
            selector == self.selector(),
    {
        match self {
            ContextValue::Address => 0,
            ContextValue::Caller => 1,
            ContextValue::CallValue => 2,
            ContextValue::Timestamp => 3,
            ContextValue::Number => 4,
            ContextValue::GasLeft => 5,
        }
    }
}

/// The context after the read of `context_value` has been generated in
/// `context`, and the operand that holds the value. For the generic target
/// nothing is generated and the value is zero; else the intrinsic that
/// reads the contract context is called with the selector of the value.
pub open spec fn get_in(context: ContextView, context_value: ContextValue) -> (
    ContextView,
    Operand,
) {
    if context.target == Target::Generic {
        (context, Operand::number(0))
    } else {
        (
            context.call(
                Intrinsic::GetFromContext,
                Some(Operand::number(context_value.selector())),
            ),
            context.next_value(),
        )
    }
}

/// Lowers the contract context getter calls.
pub fn get(context: &mut Context, context_value: ContextValue) -> (result: Option<Operand>)
    requires
        old(context)@.well_formed(),
    ensures
        final(context)@ == get_in(old(context)@, context_value).0,
        result == Some(get_in(old(context)@, context_value).1),
        final(context)@.well_formed(),
        final(context)@.grown_from(old(context)@),
{
    if let Target::Generic = context.target {
        return Some(context.field_const(0));
    }
    let value = context.build_call(
        Intrinsic::GetFromContext,
        Some(context.field_const(context_value.into_selector())),
    );
    value
}

} // verus!
