//! The intermediate representation: functions made of basic blocks, as the
//! generator hands them to a backend.

use vstd::prelude::*;
use crate::generator::word::Word;
verus! {

/// The logical memory regions. A pointer is tagged with the region that it
/// refers to; the tag selects the routine that accesses the memory and is
/// never computed with.
#[derive(Debug, Clone, Copy, PartialEq, Eq, Structural)]
pub enum AddressSpace {
    /// The memory of the contract.
    Heap,
    /// The memory of the frame that called.
    Parent,
    /// The variables of the function.
    Stack,
}

/// The operations that a backend provides under a name.
#[derive(Debug, Clone, Copy, PartialEq, Eq, Structural)]
pub enum Intrinsic {
    /// Starts a hash anew and absorbs a word.
    HashAbsorbReset,
    /// Absorbs a word into the hash.
    HashAbsorb,
    /// Ends the hash and yields it.
    HashOutput,
    /// Reads a value of the contract context.
    GetFromContext,
    /// Copies memory into the frame that called.
    MemoryCopyToParent,
}

impl Intrinsic {
    /// Whether a call of the intrinsic yields a value.
    pub open spec fn yields(self) -> bool {
        match self {
            Intrinsic::HashOutput => true,
            Intrinsic::GetFromContext => true,
            _ => false,
        }
    }

    /// Tells whether a call of the intrinsic yields a value.
    pub fn returns_value(self) -> (yields: bool)
        ensures
            yields == self.yields(),
    {
        match self {
            Intrinsic::HashOutput => true,
            Intrinsic::GetFromContext => true,
            _ => false,
        }
    }
}

/// What an instruction works on.
#[derive(Debug, Clone, Copy, PartialEq, Eq, Structural)]
pub enum Operand {
    /// A word known when the code is generated.
    Constant(Word),
    /// The value that the instruction with this result has yielded.
    Register(usize),
}

impl Operand {
    /// The constant that holds `value`.
    pub open spec fn number(value: u64) -> Operand {
        Operand::Constant(Word::small(value))
    }

    /// The constant that holds `value`.
    pub fn small(value: u64) -> (operand: Operand)
        ensures
            operand == Operand::number(value),
    {
        Operand::Constant(Word::from_u64(value))
    }
}

/// A place in memory.
#[derive(Debug, Clone, Copy, PartialEq, Eq, Structural)]
pub struct Pointer {
    /// The region.
    pub space: AddressSpace,
    /// The offset in the region; on the stack, the number of the variable.
    pub offset: Operand,
}

/// The arithmetic and bitwise operations on two words.
#[derive(Debug, Clone, Copy, PartialEq, Eq, Structural)]
pub enum BinaryOperator {
    Add,
    Sub,
    Mul,
    UnsignedDiv,
    SignedDiv,
    UnsignedRem,
    SignedRem,
    And,
    Or,
    Xor,
    ShiftLeft,
    ShiftRight,
}

/// The comparisons of two words.
#[derive(Debug, Clone, Copy, PartialEq, Eq, Structural)]
pub enum IntPredicate {
    Equal,
    UnsignedLess,
    UnsignedGreater,
    SignedLess,
    SignedGreater,
}

/// One step of a basic block. The last four end a block: what stands behind
/// one of them in the same block is never reached.
#[derive(Debug, Clone, Copy, PartialEq, Eq, Structural)]
#[allow(inconsistent_fields)]
pub enum Instruction {
    /// Makes room for the variable `slot` on the stack.
    Allocate { slot: usize },
    /// Reads the word at `pointer`.
    Load { result: usize, pointer: Pointer },
    /// Writes `value` at `pointer`.
    Store { pointer: Pointer, value: Operand },
    /// Computes `left operator right`.
    Binary { result: usize, operator: BinaryOperator, left: Operand, right: Operand },
    /// Compares `left` with `right`; yields one where the predicate holds, else zero.
    Compare { result: usize, predicate: IntPredicate, left: Operand, right: Operand },
    /// Keeps the lowest `bits` bits of `value`.
    Truncate { result: usize, value: Operand, bits: u32 },
    /// Calls `intrinsic`, with `argument` where it takes one.
    Intrinsic { result: Option<usize>, intrinsic: Intrinsic, argument: Option<Operand> },
    /// Copies `size` bytes from `source` to `destination` by `intrinsic`.
    MemoryCopy { intrinsic: Intrinsic, destination: Pointer, source: Pointer, size: Operand },
    /// Hands `value` on as the next argument of the call that follows.
    Argument { value: Operand },
    /// Calls the function `function` of the module with the arguments handed on.
    Call { function: usize },
    /// Reads the result `index` of the call before.
    Result { result: usize, index: usize },
    /// Goes to the block `target`.
    Branch { target: usize },
    /// Goes to `then_block` where `condition` is not zero, else to `else_block`.
    ConditionalBranch { condition: Operand, then_block: usize, else_block: usize },
    /// Leaves the function with its results.
    Return,
    /// Leaves the function abnormally.
    Throw,
}

impl Instruction {
    /// Whether the instruction ends a block.
    pub open spec fn terminates(self) -> bool {
        self is Branch || self is ConditionalBranch || self is Return || self is Throw
    }

    /// Whether every block that the instruction names is one of the first `blocks`.
    pub open spec fn within(self, blocks: nat) -> bool {
        match self {
            Instruction::Branch { target } => target < blocks,
            Instruction::ConditionalBranch { condition, then_block, else_block } => then_block
                < blocks && else_block < blocks,
            _ => true,
        }
    }

    /// Tells whether the instruction ends a block.
    pub fn is_terminator(&self) -> (ends: bool)
        ensures
            ends == self.terminates(),
    {
        match self {
            Instruction::Branch { .. } => true,
            Instruction::ConditionalBranch { .. } => true,
            Instruction::Return => true,
            Instruction::Throw => true,
            _ => false,
        }
    }
}

/// What a basic block is for.
#[derive(Debug, Clone, Copy, PartialEq, Eq, Structural)]
pub enum Label {
    /// Where a function starts.
    Entry,
    /// Where a function ends normally.
    Return,
    /// Where a function ends abnormally.
    Throw,
    /// The block of an `if`.
    IfMain,
    /// Behind an `if`.
    IfJoin,
    /// Where the condition of a `for` is tested.
    ForCondition,
    /// The body of a `for`.
    ForBody,
    /// The finalizer of a `for`.
    ForIncrement,
    /// Behind a `for`.
    ForJoin,
    /// Behind a `switch`.
    SwitchJoin,
    /// Where the case of the given number is tested, counted from one; with
    /// the number after the last case, where the default stands.
    SwitchCaseConstant(usize),
    /// The block of the case of the given number, counted from one.
    SwitchCaseBranch(usize),
    /// Where the hash loop tests its index.
    Keccak256Condition,
    /// Where the hash loop absorbs a word.
    Keccak256Body,
    /// Where the hash loop moves its index on.
    Keccak256Increment,
    /// Behind the hash loop.
    Keccak256Join,
}

/// A basic block: a straight line of instructions with one entry.
#[derive(Debug, Clone, Copy, PartialEq, Eq, Structural)]
pub struct BasicBlock {
    /// What the block is for.
    pub label: Label,
    /// Whether an instruction that ends the block has been put into it.
    pub terminated: bool,
}

/// An instruction in the block that it was put into. The instructions of a
/// function are kept in the order in which they were generated; those of one
/// block are the ones placed in it, in that order.
#[derive(Debug, Clone, Copy, PartialEq, Eq, Structural)]
pub struct Placed {
    /// The number of the block.
    pub block: usize,
    /// The instruction.
    pub instruction: Instruction,
}

/// Whether `code` holds an instruction that ends the block `block`.
pub open spec fn ends_block(code: Seq<Placed>, block: int) -> bool {
    exists|i: int|
        0 <= i < code.len() && (#[trigger] code[i]).block == block
            && code[i].instruction.terminates()
}

/// The targets of `continue` and `break` in a loop.
#[derive(Debug, Clone, Copy, PartialEq, Eq, Structural)]
pub struct LoopFrame {
    /// Where `continue` goes.
    pub continue_block: usize,
    /// Where `break` goes.
    pub break_block: usize,
}

/// A function of the module. The variables `0..parameters` hold the
/// arguments when the function starts, the variables
/// `parameters..parameters + results` hold the results when it ends.
#[derive(Debug, Clone, PartialEq, Eq)]
pub struct Function {
    /// The name.
    pub name: String,
    /// The number of parameters.
    pub parameters: usize,
    /// The number of results.
    pub results: usize,
    /// The number of variables.
    pub slots: usize,
    /// The number of registers.
    pub registers: usize,
    /// The basic blocks; the first is the entry.
    pub blocks: Vec<BasicBlock>,
    /// The instructions, each in its block.
    pub code: Vec<Placed>,
    /// The block that ends the function normally.
    pub return_block: usize,
    /// The block that ends the function abnormally.
    pub throw_block: usize,
}

/// The model of a [`Function`].
pub struct FunctionView {
    pub name: Seq<char>,
    pub parameters: usize,
    pub results: usize,
    pub slots: usize,
    pub registers: usize,
    pub blocks: Seq<BasicBlock>,
    pub code: Seq<Placed>,
    pub return_block: usize,
    pub throw_block: usize,
}

impl View for Function {
    type V = FunctionView;

    open spec fn view(&self) -> FunctionView {
        FunctionView {
            name: self.name@,
            parameters: self.parameters,
            results: self.results,
            slots: self.slots,
            registers: self.registers,
            blocks: self.blocks@,
            code: self.code@,
            return_block: self.return_block,
            throw_block: self.throw_block,
        }
    }
}

impl FunctionView {
    /// A function that is declared and has no body yet.
    pub open spec fn declared(name: Seq<char>, parameters: usize, results: usize) -> FunctionView {
        FunctionView {
            name,
            parameters,
            results,
            slots: 0,
            registers: 0,
            blocks: Seq::empty(),
            code: Seq::empty(),
            return_block: 0,
            throw_block: 0,
        }
    }

    /// Whether the function is closed: every instruction stands in a block
    /// of the function and names blocks of the function only, and every
    /// block is ended by an instruction that stands in it.
    pub open spec fn closed(self) -> bool {
        &&& forall|i: int|
            0 <= i < self.code.len() ==> (#[trigger] self.code[i]).block < self.blocks.len()
                && self.code[i].instruction.within(self.blocks.len())
        &&& forall|b: int|
            0 <= b < self.blocks.len() ==> (#[trigger] self.blocks[b]).terminated && ends_block(
                self.code,
                b,
            )
    }
}

} // verus!
