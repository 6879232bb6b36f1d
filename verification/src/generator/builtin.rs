//! The functions that the language provides.

use vstd::prelude::*;
use vstd::string::StringExecFns;
use crate::generator::context::Context;
use crate::generator::context::ContextView;
use crate::generator::ir::AddressSpace;
use crate::generator::ir::BinaryOperator;
use crate::generator::ir::IntPredicate;
use crate::generator::ir::Operand;
use crate::generator::ir::Pointer;
use crate::generator::word::Word;
use crate::generator::lowering;
use crate::parser::statement::expression::function_call::context::ContextValue;
use crate::parser::statement::expression::function_call::context::get;
use crate::parser::statement::expression::function_call::context::get_in;
use crate::parser::statement::expression::function_call::hash::keccak256;
use crate::parser::statement::expression::function_call::hash::keccak256_in;
use crate::parser::statement::expression::function_call::transaction::return_data;
use crate::parser::statement::expression::function_call::transaction::revert;
use crate::parser::statement::expression::function_call::transaction::transfer_in;

verus! {

/// The functions that the language provides, by the names that call them.
#[derive(Debug, Clone, Copy, PartialEq, Eq, Structural)]
pub enum Builtin {
    /// `add(x, y)`: the sum.
    Add,
    /// `sub(x, y)`: the difference.
    Sub,
    /// `mul(x, y)`: the product.
    Mul,
    /// `div(x, y)`: the unsigned quotient.
    Div,
    /// `sdiv(x, y)`: the signed quotient.
    Sdiv,
    /// `mod(x, y)`: the unsigned remainder.
    Mod,
    /// `smod(x, y)`: the signed remainder.
    Smod,
    /// `lt(x, y)`: whether `x` is below `y`, unsigned.
    Lt,
    /// `gt(x, y)`: whether `x` is above `y`, unsigned.
    Gt,
    /// `slt(x, y)`: whether `x` is below `y`, signed.
    Slt,
    /// `sgt(x, y)`: whether `x` is above `y`, signed.
    Sgt,
    /// `eq(x, y)`: whether `x` equals `y`.
    Eq,
    /// `iszero(x)`: whether `x` is zero.
    IsZero,
    /// `and(x, y)`: the bits set in both.
    And,
    /// `or(x, y)`: the bits set in either.
    Or,
    /// `xor(x, y)`: the bits set in one only.
    Xor,
    /// `not(x)`: the bits not set in `x`.
    Not,
    /// `shl(x, y)`: `y` shifted left by `x` bits.
    Shl,
    /// `shr(x, y)`: `y` shifted right by `x` bits.
    Shr,
    /// `mload(p)`: the word of heap memory at `p`.
    MLoad,
    /// `mstore(p, v)`: writes `v` to heap memory at `p`.
    MStore,
    /// `keccak256(p, n)`: the hash of `n` bytes of heap memory at `p`.
    Keccak256,
    /// `return(p, n)`: ends the call with `n` bytes of heap memory at `p`.
    Return,
    /// `revert(p, n)`: ends the call abnormally with `n` bytes of heap memory at `p`.
    Revert,
    /// `address()`: the address of the contract.
    Address,
    /// `caller()`: the address that called.
    Caller,
    /// `callvalue()`: the value sent with the call.
    CallValue,
    /// `timestamp()`: the time of the block.
    Timestamp,
    /// `number()`: the number of the block.
    Number,
    /// `gas()`: the gas that is left.
    Gas,
}

/// Tells whether `name` is written as `word`.
fn named(name: &String, word: &str) -> (same: bool)
    ensures
        same == (name@ == word@),
{
    *name == String::from_str(word)
}

impl Builtin {
    /// The function that `name` calls, if the language provides one by that name.
    pub open spec fn of(name: Seq<char>) -> Option<Builtin> {
        if name == "add"@ {
            Some(Builtin::Add)
        }         else if name == "sub"@ {
            Some(Builtin::Sub)
        }         else if name == "mul"@ {
            Some(Builtin::Mul)
        }         else if name == "div"@ {
            Some(Builtin::Div)
        }         else if name == "sdiv"@ {
            Some(Builtin::Sdiv)
        }         else if name == "mod"@ {
            Some(Builtin::Mod)
        }         else if name == "smod"@ {
            Some(Builtin::Smod)
        }         else if name == "lt"@ {
            Some(Builtin::Lt)
        }         else if name == "gt"@ {
            Some(Builtin::Gt)
        }         else if name == "slt"@ {
            Some(Builtin::Slt)
        }         else if name == "sgt"@ {
            Some(Builtin::Sgt)
        }         else if name == "eq"@ {
            Some(Builtin::Eq)
        }         else if name == "iszero"@ {
            Some(Builtin::IsZero)
        }         else if name == "and"@ {
            Some(Builtin::And)
        }         else if name == "or"@ {
            Some(Builtin::Or)
        }         else if name == "xor"@ {
            Some(Builtin::Xor)
        }         else if name == "not"@ {
            Some(Builtin::Not)
        }         else if name == "shl"@ {
            Some(Builtin::Shl)
        }         else if name == "shr"@ {
            Some(Builtin::Shr)
        }         else if name == "mload"@ {
            Some(Builtin::MLoad)
        }         else if name == "mstore"@ {
            Some(Builtin::MStore)
        }         else if name == "keccak256"@ {
            Some(Builtin::Keccak256)
        }         else if name == "return"@ {
            Some(Builtin::Return)
        }         else if name == "revert"@ {
            Some(Builtin::Revert)
        }         else if name == "address"@ {
            Some(Builtin::Address)
        }         else if name == "caller"@ {
            Some(Builtin::Caller)
        }         else if name == "callvalue"@ {
            Some(Builtin::CallValue)
        }         else if name == "timestamp"@ {
            Some(Builtin::Timestamp)
        }         else if name == "number"@ {
            Some(Builtin::Number)
        }         else if name == "gas"@ {
            Some(Builtin::Gas)
        } else {
            None
        }
    }

    /// Finds the function that `name` calls.
    pub fn find(name: &String) -> (found: Option<Builtin>)
        ensures
            found == Builtin::of(name@),
    {
        if named(name, "add") {
            Some(Builtin::Add)
        }         else if named(name, "sub") {
            Some(Builtin::Sub)
        }         else if named(name, "mul") {
            Some(Builtin::Mul)
        }         else if named(name, "div") {
            Some(Builtin::Div)
        }         else if named(name, "sdiv") {
            Some(Builtin::Sdiv)
        }         else if named(name, "mod") {
            Some(Builtin::Mod)
        }         else if named(name, "smod") {
            Some(Builtin::Smod)
        }         else if named(name, "lt") {
            Some(Builtin::Lt)
        }         else if named(name, "gt") {
            Some(Builtin::Gt)
        }         else if named(name, "slt") {
            Some(Builtin::Slt)
        }         else if named(name, "sgt") {
            Some(Builtin::Sgt)
        }         else if named(name, "eq") {
            Some(Builtin::Eq)
        }         else if named(name, "iszero") {
            Some(Builtin::IsZero)
        }         else if named(name, "and") {
            Some(Builtin::And)
        }         else if named(name, "or") {
            Some(Builtin::Or)
        }         else if named(name, "xor") {
            Some(Builtin::Xor)
        }         else if named(name, "not") {
            Some(Builtin::Not)
        }         else if named(name, "shl") {
            Some(Builtin::Shl)
        }         else if named(name, "shr") {
            Some(Builtin::Shr)
        }         else if named(name, "mload") {
            Some(Builtin::MLoad)
        }         else if named(name, "mstore") {
            Some(Builtin::MStore)
        }         else if named(name, "keccak256") {
            Some(Builtin::Keccak256)
        }         else if named(name, "return") {
            Some(Builtin::Return)
        }         else if named(name, "revert") {
            Some(Builtin::Revert)
        }         else if named(name, "address") {
            Some(Builtin::Address)
        }         else if named(name, "caller") {
            Some(Builtin::Caller)
        }         else if named(name, "callvalue") {
            Some(Builtin::CallValue)
        }         else if named(name, "timestamp") {
            Some(Builtin::Timestamp)
        }         else if named(name, "number") {
            Some(Builtin::Number)
        }         else if named(name, "gas") {
            Some(Builtin::Gas)
        } else {
            None
        }
    }

    /// The number of arguments that the function takes.
    pub open spec fn arity(self) -> nat {
        match self {
            Builtin::Add => 2,
            Builtin::Sub => 2,
            Builtin::Mul => 2,
            Builtin::Div => 2,
            Builtin::Sdiv => 2,
            Builtin::Mod => 2,
            Builtin::Smod => 2,
            Builtin::Lt => 2,
            Builtin::Gt => 2,
            Builtin::Slt => 2,
            Builtin::Sgt => 2,
            Builtin::Eq => 2,
            Builtin::IsZero => 1,
            Builtin::And => 2,
            Builtin::Or => 2,
            Builtin::Xor => 2,
            Builtin::Not => 1,
            Builtin::Shl => 2,
            Builtin::Shr => 2,
            Builtin::MLoad => 1,
            Builtin::MStore => 2,
            Builtin::Keccak256 => 2,
            Builtin::Return => 2,
            Builtin::Revert => 2,
            Builtin::Address => 0,
            Builtin::Caller => 0,
            Builtin::CallValue => 0,
            Builtin::Timestamp => 0,
            Builtin::Number => 0,
            Builtin::Gas => 0,
        }
    }

    /// The number of arguments that the function takes.
    pub fn arguments(self) -> (count: usize)
        ensures
            count == self.arity(),
    {
        match self {
            Builtin::Add => 2,
            Builtin::Sub => 2,
            Builtin::Mul => 2,
            Builtin::Div => 2,
            Builtin::Sdiv => 2,
            Builtin::Mod => 2,
            Builtin::Smod => 2,
            Builtin::Lt => 2,
            Builtin::Gt => 2,
            Builtin::Slt => 2,
            Builtin::Sgt => 2,
            Builtin::Eq => 2,
            Builtin::IsZero => 1,
            Builtin::And => 2,
            Builtin::Or => 2,
            Builtin::Xor => 2,
            Builtin::Not => 1,
            Builtin::Shl => 2,
            Builtin::Shr => 2,
            Builtin::MLoad => 1,
            Builtin::MStore => 2,
            Builtin::Keccak256 => 2,
            Builtin::Return => 2,
            Builtin::Revert => 2,
            Builtin::Address => 0,
            Builtin::Caller => 0,
            Builtin::CallValue => 0,
            Builtin::Timestamp => 0,
            Builtin::Number => 0,
            Builtin::Gas => 0,
        }
    }

    /// The context after a call of the function with `arguments` has been
    /// generated in `context`, and the values that the call yields: one or
    /// none.
    pub open spec fn lowered(self, context: ContextView, arguments: Seq<Operand>) -> (
        ContextView,
        Seq<Operand>,
    ) {
        let value = seq![context.next_value()];
        match self {
            Builtin::Add => (context.binary(BinaryOperator::Add, arguments[0], arguments[1]), value),
            Builtin::Sub => (context.binary(BinaryOperator::Sub, arguments[0], arguments[1]), value),
            Builtin::Mul => (context.binary(BinaryOperator::Mul, arguments[0], arguments[1]), value),
            Builtin::Div => (
                context.binary(BinaryOperator::UnsignedDiv, arguments[0], arguments[1]),
                value,
            ),
            Builtin::Sdiv => (
                context.binary(BinaryOperator::SignedDiv, arguments[0], arguments[1]),
                value,
            ),
            Builtin::Mod => (
                context.binary(BinaryOperator::UnsignedRem, arguments[0], arguments[1]),
                value,
            ),
            Builtin::Smod => (
                context.binary(BinaryOperator::SignedRem, arguments[0], arguments[1]),
                value,
            ),
            Builtin::Lt => (
                context.compare(IntPredicate::UnsignedLess, arguments[0], arguments[1]),
                value,
            ),
            Builtin::Gt => (
                context.compare(IntPredicate::UnsignedGreater, arguments[0], arguments[1]),
                value,
            ),
            Builtin::Slt => (
                context.compare(IntPredicate::SignedLess, arguments[0], arguments[1]),
                value,
            ),
            Builtin::Sgt => (
                context.compare(IntPredicate::SignedGreater, arguments[0], arguments[1]),
                value,
            ),
            Builtin::Eq => (context.compare(IntPredicate::Equal, arguments[0], arguments[1]), value),
            Builtin::IsZero => (
                context.compare(IntPredicate::Equal, arguments[0], Operand::number(0)),
                value,
            ),
            Builtin::And => (context.binary(BinaryOperator::And, arguments[0], arguments[1]), value),
            Builtin::Or => (context.binary(BinaryOperator::Or, arguments[0], arguments[1]), value),
            Builtin::Xor => (context.binary(BinaryOperator::Xor, arguments[0], arguments[1]), value),
            Builtin::Not => (
                context.binary(BinaryOperator::Xor, arguments[0], Operand::Constant(Word::ones())),
                value,
            ),
            Builtin::Shl => (
                context.binary(BinaryOperator::ShiftLeft, arguments[1], arguments[0]),
                value,
            ),
            Builtin::Shr => (
                context.binary(BinaryOperator::ShiftRight, arguments[1], arguments[0]),
                value,
            ),
            Builtin::MLoad => (
                context.load(Pointer { space: AddressSpace::Heap, offset: arguments[0] }),
                value,
            ),
            Builtin::MStore => (
                context.store(
                    Pointer { space: AddressSpace::Heap, offset: arguments[0] },
                    arguments[1],
                ),
                Seq::empty(),
            ),
            Builtin::Keccak256 => (
                keccak256_in(context, arguments[0], arguments[1]).0,
                seq![keccak256_in(context, arguments[0], arguments[1]).1],
            ),
            Builtin::Return => (
                transfer_in(context, arguments[0], arguments[1], context.frame.return_block),
                Seq::empty(),
            ),
            Builtin::Revert => (
                transfer_in(context, arguments[0], arguments[1], context.frame.throw_block),
                Seq::empty(),
            ),
            Builtin::Address => (
                get_in(context, ContextValue::Address).0,
                seq![get_in(context, ContextValue::Address).1],
            ),
            Builtin::Caller => (
                get_in(context, ContextValue::Caller).0,
                seq![get_in(context, ContextValue::Caller).1],
            ),
            Builtin::CallValue => (
                get_in(context, ContextValue::CallValue).0,
                seq![get_in(context, ContextValue::CallValue).1],
            ),
            Builtin::Timestamp => (
                get_in(context, ContextValue::Timestamp).0,
                seq![get_in(context, ContextValue::Timestamp).1],
            ),
            Builtin::Number => (
                get_in(context, ContextValue::Number).0,
                seq![get_in(context, ContextValue::Number).1],
            ),
            Builtin::Gas => (
                get_in(context, ContextValue::GasLeft).0,
                seq![get_in(context, ContextValue::GasLeft).1],
            ),
        }
    }

    /// Generates a call of the function with `arguments`; hands back the
    /// value that the call yields, if it yields one.
    pub fn lower(self, context: &mut Context, arguments: &Vec<Operand>) -> (value: Option<Operand>)
        requires
            old(context)@.well_formed(),
            arguments@.len() == self.arity(),
        ensures
            final(context)@ == self.lowered(old(context)@, arguments@).0,
            lowering::optional(value) == self.lowered(old(context)@, arguments@).1,
            final(context)@.well_formed(),
            final(context)@.grown_from(old(context)@),
    {
        match self {
            Builtin::Add => Some(
                context.build_binary(BinaryOperator::Add, arguments[0], arguments[1]),
            ),
            Builtin::Sub => Some(
                context.build_binary(BinaryOperator::Sub, arguments[0], arguments[1]),
            ),
            Builtin::Mul => Some(
                context.build_binary(BinaryOperator::Mul, arguments[0], arguments[1]),
            ),
            Builtin::Div => Some(
                context.build_binary(BinaryOperator::UnsignedDiv, arguments[0], arguments[1]),
            ),
            Builtin::Sdiv => Some(
                context.build_binary(BinaryOperator::SignedDiv, arguments[0], arguments[1]),
            ),
            Builtin::Mod => Some(
                context.build_binary(BinaryOperator::UnsignedRem, arguments[0], arguments[1]),
            ),
            Builtin::Smod => Some(
                context.build_binary(BinaryOperator::SignedRem, arguments[0], arguments[1]),
            ),
            Builtin::Lt => Some(
                context.build_int_compare(IntPredicate::UnsignedLess, arguments[0], arguments[1]),
            ),
            Builtin::Gt => Some(
                context.build_int_compare(
                    IntPredicate::UnsignedGreater,
                    arguments[0],
                    arguments[1],
                ),
            ),
            Builtin::Slt => Some(
                context.build_int_compare(IntPredicate::SignedLess, arguments[0], arguments[1]),
            ),
            Builtin::Sgt => Some(
                context.build_int_compare(IntPredicate::SignedGreater, arguments[0], arguments[1]),
            ),
            Builtin::Eq => Some(
                context.build_int_compare(IntPredicate::Equal, arguments[0], arguments[1]),
            ),
            Builtin::IsZero => Some(
                context.build_int_compare(IntPredicate::Equal, arguments[0], Operand::small(0)),
            ),
            Builtin::And => Some(
                context.build_binary(BinaryOperator::And, arguments[0], arguments[1]),
            ),
            Builtin::Or => Some(context.build_binary(BinaryOperator::Or, arguments[0], arguments[1])),
            Builtin::Xor => Some(
                context.build_binary(BinaryOperator::Xor, arguments[0], arguments[1]),
            ),
            Builtin::Not => Some(
                context.build_binary(
                    BinaryOperator::Xor,
                    arguments[0],
                    Operand::Constant(Word::all_ones()),
                ),
            ),
            Builtin::Shl => Some(
                context.build_binary(BinaryOperator::ShiftLeft, arguments[1], arguments[0]),
            ),
            Builtin::Shr => Some(
                context.build_binary(BinaryOperator::ShiftRight, arguments[1], arguments[0]),
            ),
            Builtin::MLoad => {
                let pointer = context.access_memory(arguments[0], AddressSpace::Heap);
                Some(context.build_load(pointer))
            },
            Builtin::MStore => {
                let pointer = context.access_memory(arguments[0], AddressSpace::Heap);
                context.build_store(pointer, arguments[1]);
                None
            },
            Builtin::Keccak256 => keccak256(context, [arguments[0], arguments[1]]),
            Builtin::Return => return_data(context, [arguments[0], arguments[1]]),
            Builtin::Revert => revert(context, [arguments[0], arguments[1]]),
            Builtin::Address => get(context, ContextValue::Address),
            Builtin::Caller => get(context, ContextValue::Caller),
            Builtin::CallValue => get(context, ContextValue::CallValue),
            Builtin::Timestamp => get(context, ContextValue::Timestamp),
            Builtin::Number => get(context, ContextValue::Number),
            Builtin::Gas => get(context, ContextValue::GasLeft),
        }
    }
}

} // verus!
