//! A reference machine for the generic target: it runs the code of a module
//! on words of the field width and computes exactly. It has no contract
//! context, no hash and no parent frame: an intrinsic stops it. Products,
//! quotients, remainders and shifts it computes as far as the numbers fit
//! in 64 bits; beyond that it stops rather than yield another number.

use vstd::prelude::*;
use crate::generator::ir::AddressSpace;
use crate::generator::ir::BinaryOperator;
use crate::generator::ir::Function;
use crate::generator::ir::FunctionView;
use crate::generator::ir::Instruction;
use crate::generator::ir::IntPredicate;
use crate::generator::ir::Operand;
use crate::generator::ir::Placed;
use crate::generator::module::Module;
use crate::generator::module::ModuleView;
use crate::generator::word::Word;
use crate::generator::word::word_range;

verus! {

/// What stops the machine.
#[derive(Debug, Clone, Copy, PartialEq, Eq, Structural)]
pub enum Fault {
    /// The steps that the run was given are used up.
    OutOfFuel,
    /// A function is called that the module does not hold.
    UnknownFunction,
    /// A block ends without an instruction that ends it.
    EndOfBlock,
    /// An instruction names a register that the function does not have.
    Register,
    /// An instruction names a variable that the function does not have.
    Slot,
    /// A function is called with another number of arguments than it takes.
    Arguments,
    /// A result is read that the call before has not yielded.
    Results,
    /// An intrinsic is called.
    Intrinsic,
    /// The function has ended abnormally.
    Thrown,
    /// A product, a quotient, a remainder or a shift is asked of numbers
    /// that the machine does not compute on, or a result does not fit where
    /// it is handed to.
    Width,
}

/// Whether `x` is negative as a signed word.
pub open spec fn negative(x: Word) -> bool {
    x.limb3 >= 0x8000_0000_0000_0000
}

/// The word that holds `-x`.
pub open spec fn negated(x: Word) -> Word {
    Word::of(((0 + word_range() - x.value()) % (word_range() as int)) as nat)
}

/// The word that holds the absolute value of `x`.
pub open spec fn magnitude(x: Word) -> Word {
    if negative(x) {
        negated(x)
    } else {
        x
    }
}

/// The limb `limb` with its lowest `keep` bits kept and the others cleared.
pub open spec fn cut(limb: u64, keep: int) -> u64 {
    if keep >= 64 {
        limb
    } else if keep <= 0 {
        0
    } else {
        limb & (u64::MAX >> ((64 - keep) as u64))
    }
}

/// The lowest `bits` bits of `value`.
pub open spec fn truncated(value: Word, bits: u32) -> Word {
    Word {
        limb0: cut(value.limb0, bits as int),
        limb1: cut(value.limb1, bits - 64),
        limb2: cut(value.limb2, bits - 128),
        limb3: cut(value.limb3, bits - 192),
    }
}

/// What `left operator right` yields; nothing where the machine does not
/// compute it. The sum and the difference are taken modulo the range of a
/// word. The product is computed of numbers that fit in 64 bits. A division
/// by zero yields zero; else quotient and remainder are computed of
/// numbers that fit in 64 bits, the signed ones of the absolute values:
/// the signed quotient is rounded towards zero, and the signed remainder
/// has the sign of `left`. A shift by 256 bits or more yields zero; else a
/// number that fits in 64 bits is shifted by less than 64 bits.
pub open spec fn binary(operator: BinaryOperator, left: Word, right: Word) -> Option<Word> {
    match operator {
        BinaryOperator::Add => Some(Word::of((left.value() + right.value()) % word_range())),
        BinaryOperator::Sub => Some(
            Word::of(
                ((left.value() + word_range() - right.value()) % (word_range() as int)) as nat,
            ),
        ),
        BinaryOperator::Mul => if left.fits() && right.fits() {
            Some(Word::of((left.limb0 * right.limb0) as nat))
        } else {
            None
        },
        BinaryOperator::UnsignedDiv => if right.value() == 0 {
            Some(Word::small(0))
        } else if left.fits() && right.fits() {
            Some(Word::small((left.limb0 / right.limb0) as u64))
        } else {
            None
        },
        BinaryOperator::UnsignedRem => if right.value() == 0 {
            Some(Word::small(0))
        } else if left.fits() && right.fits() {
            Some(Word::small((left.limb0 % right.limb0) as u64))
        } else {
            None
        },
        BinaryOperator::SignedDiv => if right.value() == 0 {
            Some(Word::small(0))
        } else if magnitude(left).fits() && magnitude(right).fits() {
            let quotient = Word::small((magnitude(left).limb0 / magnitude(right).limb0) as u64);
            if negative(left) != negative(right) {
                Some(negated(quotient))
            } else {
                Some(quotient)
            }
        } else {
            None
        },
        BinaryOperator::SignedRem => if right.value() == 0 {
            Some(Word::small(0))
        } else if magnitude(left).fits() && magnitude(right).fits() {
            let remainder = Word::small((magnitude(left).limb0 % magnitude(right).limb0) as u64);
            if negative(left) {
                Some(negated(remainder))
            } else {
                Some(remainder)
            }
        } else {
            None
        },
        BinaryOperator::And => Some(
            Word {
                limb0: left.limb0 & right.limb0,
                limb1: left.limb1 & right.limb1,
                limb2: left.limb2 & right.limb2,
                limb3: left.limb3 & right.limb3,
            },
        ),
        BinaryOperator::Or => Some(
            Word {
                limb0: left.limb0 | right.limb0,
                limb1: left.limb1 | right.limb1,
                limb2: left.limb2 | right.limb2,
                limb3: left.limb3 | right.limb3,
            },
        ),
        BinaryOperator::Xor => Some(
            Word {
                limb0: left.limb0 ^ right.limb0,
                limb1: left.limb1 ^ right.limb1,
                limb2: left.limb2 ^ right.limb2,
                limb3: left.limb3 ^ right.limb3,
            },
        ),
        BinaryOperator::ShiftLeft => if !right.fits() || right.limb0 >= 256 {
            Some(Word::small(0))
        } else if left.fits() && right.limb0 < 64 {
            Some(
                Word {
                    limb0: (((left.limb0 as u128) << (right.limb0 as u128))
                        % 0x1_0000_0000_0000_0000u128) as u64,
                    limb1: (((left.limb0 as u128) << (right.limb0 as u128))
                        / 0x1_0000_0000_0000_0000u128) as u64,
                    limb2: 0,
                    limb3: 0,
                },
            )
        } else {
            None
        },
        BinaryOperator::ShiftRight => if !right.fits() || right.limb0 >= 256 {
            Some(Word::small(0))
        } else if left.fits() && right.limb0 < 64 {
            Some(Word::small(left.limb0 >> right.limb0))
        } else {
            None
        },
    }
}

/// Whether `left predicate right` holds.
pub open spec fn holds(predicate: IntPredicate, left: Word, right: Word) -> bool {
    match predicate {
        IntPredicate::Equal => left == right,
        IntPredicate::UnsignedLess => left.value() < right.value(),
        IntPredicate::UnsignedGreater => left.value() > right.value(),
        IntPredicate::SignedLess => if negative(left) != negative(right) {
            negative(left)
        } else {
            left.value() < right.value()
        },
        IntPredicate::SignedGreater => if negative(left) != negative(right) {
            negative(right)
        } else {
            left.value() > right.value()
        },
    }
}

/// Computes `-x`.
fn negate(x: Word) -> (word: Word)
    ensures
        word == negated(x),
{
    let zero = Word::from_u64(0);
    zero.sub(&x)
}

/// Computes the absolute value of `x`.
fn absolute(x: Word) -> (word: Word)
    ensures
        word == magnitude(x),
{
    if x.limb3 >= 0x8000_0000_0000_0000 {
        negate(x)
    } else {
        x
    }
}

/// Cuts `limb` to its lowest `keep` bits, where `keep` is `bits - below`.
fn cut_limb(limb: u64, bits: u32, below: u32) -> (kept: u64)
    requires
        below <= 192,
    ensures
        kept == cut(limb, bits - below),
{
    if bits <= below {
        0
    } else if bits - below >= 64 {
        limb
    } else {
        limb & (u64::MAX >> ((64 - (bits - below)) as u64))
    }
}

/// Computes `left operator right`, where the machine computes it.
pub fn compute(operator: BinaryOperator, left: Word, right: Word) -> (word: Option<Word>)
    ensures
        word == binary(operator, left, right),
{
    match operator {
        BinaryOperator::Add => Some(left.add(&right)),
        BinaryOperator::Sub => Some(left.sub(&right)),
        BinaryOperator::Mul => if left.is_small() && right.is_small() {
            assert(left.limb0 * right.limb0 <= 0xffff_ffff_ffff_ffff * 0xffff_ffff_ffff_ffff)
                by (nonlinear_arith)
                requires
                    left.limb0 <= 0xffff_ffff_ffff_ffff,
                    right.limb0 <= 0xffff_ffff_ffff_ffff,
            ;
            let product: u128 = left.limb0 as u128 * right.limb0 as u128;
            let word = Word {
                limb0: (product % 0x1_0000_0000_0000_0000u128) as u64,
                limb1: (product / 0x1_0000_0000_0000_0000u128) as u64,
                limb2: 0,
                limb3: 0,
            };
            proof {
                word.lemma_of_value();
                assert(word.value() == product);
            }
            Some(word)
        } else {
            None
        },
        BinaryOperator::UnsignedDiv => if right.is_zero() {
            Some(Word::from_u64(0))
        } else if left.is_small() && right.is_small() {
            proof {
                right.lemma_of_value();
            }
            Some(Word::from_u64(left.limb0 / right.limb0))
        } else {
            None
        },
        BinaryOperator::UnsignedRem => if right.is_zero() {
            Some(Word::from_u64(0))
        } else if left.is_small() && right.is_small() {
            proof {
                right.lemma_of_value();
            }
            Some(Word::from_u64(left.limb0 % right.limb0))
        } else {
            None
        },
        BinaryOperator::SignedDiv => {
            if right.is_zero() {
                return Some(Word::from_u64(0));
            }
            let dividend = absolute(left);
            let divisor = absolute(right);
            if !(dividend.is_small() && divisor.is_small()) {
                return None;
            }
            proof {
                lemma_magnitude(right);
                divisor.lemma_of_value();
            }
            let quotient = Word::from_u64(dividend.limb0 / divisor.limb0);
            if (left.limb3 >= 0x8000_0000_0000_0000) != (right.limb3 >= 0x8000_0000_0000_0000) {
                Some(negate(quotient))
            } else {
                Some(quotient)
            }
        },
        BinaryOperator::SignedRem => {
            if right.is_zero() {
                return Some(Word::from_u64(0));
            }
            let dividend = absolute(left);
            let divisor = absolute(right);
            if !(dividend.is_small() && divisor.is_small()) {
                return None;
            }
            proof {
                lemma_magnitude(right);
                divisor.lemma_of_value();
            }
            let remainder = Word::from_u64(dividend.limb0 % divisor.limb0);
            if left.limb3 >= 0x8000_0000_0000_0000 {
                Some(negate(remainder))
            } else {
                Some(remainder)
            }
        },
        BinaryOperator::And => Some(
            Word {
                limb0: left.limb0 & right.limb0,
                limb1: left.limb1 & right.limb1,
                limb2: left.limb2 & right.limb2,
                limb3: left.limb3 & right.limb3,
            },
        ),
        BinaryOperator::Or => Some(
            Word {
                limb0: left.limb0 | right.limb0,
                limb1: left.limb1 | right.limb1,
                limb2: left.limb2 | right.limb2,
                limb3: left.limb3 | right.limb3,
            },
        ),
        BinaryOperator::Xor => Some(
            Word {
                limb0: left.limb0 ^ right.limb0,
                limb1: left.limb1 ^ right.limb1,
                limb2: left.limb2 ^ right.limb2,
                limb3: left.limb3 ^ right.limb3,
            },
        ),
        BinaryOperator::ShiftLeft => if !right.is_small() || right.limb0 >= 256 {
            Some(Word::from_u64(0))
        } else if left.is_small() && right.limb0 < 64 {
            let shifted: u128 = (left.limb0 as u128) << (right.limb0 as u128);
            Some(
                Word {
                    limb0: (shifted % 0x1_0000_0000_0000_0000u128) as u64,
                    limb1: (shifted / 0x1_0000_0000_0000_0000u128) as u64,
                    limb2: 0,
                    limb3: 0,
                },
            )
        } else {
            None
        },
        BinaryOperator::ShiftRight => if !right.is_small() || right.limb0 >= 256 {
            Some(Word::from_u64(0))
        } else if left.is_small() && right.limb0 < 64 {
            Some(Word::from_u64(left.limb0 >> right.limb0))
        } else {
            None
        },
    }
}

/// The absolute value of a word that is not zero is not zero.
proof fn lemma_magnitude(x: Word)
    requires
        x.value() != 0,
    ensures
        magnitude(x).value() != 0,
{
    x.lemma_of_value();
    if negative(x) {
        let range = word_range() as int;
        let opposite = range - x.value();
        vstd::arithmetic::div_mod::lemma_small_mod(opposite as nat, word_range());
        Word::lemma_value_of(opposite as nat);
    }
}

/// Tells whether `left predicate right` holds.
pub fn compare(predicate: IntPredicate, left: Word, right: Word) -> (result: bool)
    ensures
        result == holds(predicate, left, right),
{
    let left_negative = left.limb3 >= 0x8000_0000_0000_0000;
    let right_negative = right.limb3 >= 0x8000_0000_0000_0000;
    match predicate {
        IntPredicate::Equal => left == right,
        IntPredicate::UnsignedLess => left.less(&right),
        IntPredicate::UnsignedGreater => right.less(&left),
        IntPredicate::SignedLess => if left_negative != right_negative {
            left_negative
        } else {
            left.less(&right)
        },
        IntPredicate::SignedGreater => if left_negative != right_negative {
            right_negative
        } else {
            right.less(&left)
        },
    }
}

/// Cuts `value` to its lowest `bits` bits.
pub fn truncate(value: Word, bits: u32) -> (word: Word)
    ensures
        word == truncated(value, bits),
{
    Word {
        limb0: cut_limb(value.limb0, bits, 0),
        limb1: cut_limb(value.limb1, bits, 64),
        limb2: cut_limb(value.limb2, bits, 128),
        limb3: cut_limb(value.limb3, bits, 192),
    }
}

/// A word of memory at an address.
#[derive(Debug, Clone, Copy, PartialEq, Eq, Structural)]
pub struct Cell {
    /// The address.
    pub address: Word,
    /// The word.
    pub value: Word,
}

/// The word of `cells` at `address`: that of the last cell at the address,
/// or zero where there is none.
pub open spec fn memory_at(cells: Seq<Cell>, address: Word) -> Word
    decreases cells.len(),
{
    if cells.len() == 0 {
        Word::small(0)
    } else if cells.last().address == address {
        cells.last().value
    } else {
        memory_at(cells.drop_last(), address)
    }
}

/// Reads the word of `cells` at `address`.
fn read_memory(cells: &Vec<Cell>, address: Word) -> (word: Word)
    ensures
        word == memory_at(cells@, address),
{
    let mut at: usize = cells.len();
    assert(cells@.take(at as int) =~= cells@);
    while at > 0
        invariant
            at <= cells.len(),
            memory_at(cells@.take(at as int), address) == memory_at(cells@, address),
        decreases at,
    {
        at = at - 1;
        assert(cells@.take(at + 1).drop_last() =~= cells@.take(at as int));
        if cells[at].address == address {
            return cells[at].value;
        }
    }
    Word::from_u64(0)
}

/// A function that is running: where it stands, and where its registers
/// and its variables start among the values of the machine.
#[derive(Debug, Clone, Copy, PartialEq, Eq, Structural)]
pub struct Activation {
    /// The number of the function; the number of functions stands for the
    /// code outside any function.
    pub function: usize,
    /// The block that is run.
    pub block: usize,
    /// The place among the instructions of the function from which the
    /// next instruction of the block is looked for.
    pub position: usize,
    /// Where the registers start.
    pub registers: usize,
    /// Where the variables start.
    pub slots: usize,
}

/// The state of the machine.
pub struct State {
    /// The registers and the variables of the functions that are running.
    pub values: Vec<Word>,
    /// The functions that are running, the innermost last.
    pub frames: Vec<Activation>,
    /// The arguments handed on to the next call.
    pub arguments: Vec<Word>,
    /// The results of the last call.
    pub results: Vec<Word>,
    /// The heap memory.
    pub heap: Vec<Cell>,
    /// The memory of the frame that called.
    pub parent: Vec<Cell>,
}

/// The model of a [`State`].
pub struct StateView {
    pub values: Seq<Word>,
    pub frames: Seq<Activation>,
    pub arguments: Seq<Word>,
    pub results: Seq<Word>,
    pub heap: Seq<Cell>,
    pub parent: Seq<Cell>,
}

impl View for State {
    type V = StateView;

    open spec fn view(&self) -> StateView {
        StateView {
            values: self.values@,
            frames: self.frames@,
            arguments: self.arguments@,
            results: self.results@,
            heap: self.heap@,
            parent: self.parent@,
        }
    }
}

/// What a step of the machine leads to.
pub enum Step {
    /// The machine goes on in the given state.
    Next(StateView),
    /// The outermost function has ended with the given results.
    Done(Seq<Word>),
    /// The machine stops.
    Fault(Fault),
}

/// The function `index` of `module`; the number of functions stands for
/// the code outside any function.
pub open spec fn function_at(module: ModuleView, index: usize) -> Option<FunctionView> {
    if index < module.functions.len() {
        Some(module.functions[index as int])
    } else if index == module.functions.len() {
        Some(module.entry)
    } else {
        None
    }
}

/// The place of the first instruction of `block` at or after `from`.
pub open spec fn next_in_block(code: Seq<Placed>, block: usize, from: int) -> Option<int>
    decreases code.len() - from,
{
    if from < 0 || from >= code.len() {
        None
    } else if code[from].block == block {
        Some(from)
    } else {
        next_in_block(code, block, from + 1)
    }
}

impl StateView {
    /// The state before anything runs, with `arguments` handed on.
    pub open spec fn start(arguments: Seq<Word>) -> StateView {
        StateView {
            values: Seq::empty(),
            frames: Seq::empty(),
            arguments,
            results: Seq::empty(),
            heap: Seq::empty(),
            parent: Seq::empty(),
        }
    }

    /// The value of `operand` in the innermost function, which is
    /// `function`; nothing where the function does not have the register.
    pub open spec fn operand(self, function: FunctionView, operand: Operand) -> Option<Word> {
        match operand {
            Operand::Constant(word) => Some(word),
            Operand::Register(register) => if self.frames.len() > 0 && register
                < function.registers && self.frames.last().registers + register
                < self.values.len() {
                Some(self.values[self.frames.last().registers + register])
            } else {
                None
            },
        }
    }

    /// The state with `word` in the register `register` of the innermost
    /// function; nothing where the function does not have the register.
    pub open spec fn with_register(self, function: FunctionView, register: usize, word: Word) -> Option<
        StateView,
    > {
        if self.frames.len() > 0 && register < function.registers && self.frames.last().registers
            + register < self.values.len() {
            Some(
                StateView {
                    values: self.values.update(self.frames.last().registers + register, word),
                    ..self
                },
            )
        } else {
            None
        }
    }

    /// The place among the values of the variable `slot` of the innermost
    /// function; nothing where the function does not have the variable.
    pub open spec fn slot(self, function: FunctionView, slot: Word) -> Option<int> {
        if self.frames.len() > 0 && slot.fits() && slot.limb0 < function.slots
            && self.frames.last().slots + slot.limb0 < self.values.len() {
            Some(self.frames.last().slots + slot.limb0)
        } else {
            None
        }
    }

    /// The word at `pointer`, whose offset has the value `offset`.
    pub open spec fn load(self, function: FunctionView, space: AddressSpace, offset: Word) -> Option<
        Word,
    > {
        match space {
            AddressSpace::Heap => Some(memory_at(self.heap, offset)),
            AddressSpace::Parent => Some(memory_at(self.parent, offset)),
            AddressSpace::Stack => match self.slot(function, offset) {
                Some(place) => Some(self.values[place]),
                None => None,
            },
        }
    }

    /// The state with `word` at `pointer`, whose offset has the value `offset`.
    pub open spec fn store(
        self,
        function: FunctionView,
        space: AddressSpace,
        offset: Word,
        word: Word,
    ) -> Option<StateView> {
        match space {
            AddressSpace::Heap => Some(
                StateView { heap: self.heap.push(Cell { address: offset, value: word }), ..self },
            ),
            AddressSpace::Parent => Some(
                StateView {
                    parent: self.parent.push(Cell { address: offset, value: word }),
                    ..self
                },
            ),
            AddressSpace::Stack => match self.slot(function, offset) {
                Some(place) => Some(StateView { values: self.values.update(place, word), ..self }),
                None => None,
            },
        }
    }

    /// The state with the innermost function at `block`, looking for its
    /// next instruction from `position` on.
    pub open spec fn at(self, block: usize, position: usize) -> StateView {
        StateView {
            frames: self.frames.update(
                self.frames.len() - 1,
                Activation { block, position, ..self.frames.last() },
            ),
            ..self
        }
    }

    /// The state with the function `index`, which is `function`, called
    /// with the arguments handed on: its registers and its variables are
    /// put after the values, all zero but the first variables, which hold
    /// the arguments; it stands at the start of its first block. Nothing
    /// where the number of arguments is not the one that the function takes
    /// or where the function has fewer variables than parameters.
    pub open spec fn call(self, index: usize, function: FunctionView) -> Option<StateView> {
        if self.arguments.len() != function.parameters || function.parameters > function.slots {
            None
        } else {
            Some(
                StateView {
                    values: self.values + Seq::new(function.registers as nat, |i: int| Word::small(0))
                        + Seq::new(
                        function.slots as nat,
                        |i: int|
                            if i < self.arguments.len() {
                                self.arguments[i]
                            } else {
                                Word::small(0)
                            },
                    ),
                    frames: self.frames.push(
                        Activation {
                            function: index,
                            block: 0,
                            position: 0,
                            registers: self.values.len() as usize,
                            slots: (self.values.len() + function.registers) as usize,
                        },
                    ),
                    arguments: Seq::empty(),
                    ..self
                },
            )
        }
    }

    /// What the return of the innermost function, which is `function`,
    /// leads to: its results are the variables behind its parameters; its
    /// values are given up; where it is the outermost function, the machine
    /// is done.
    pub open spec fn leave(self, function: FunctionView) -> Step {
        if self.frames.len() == 0 {
            Step::Fault(Fault::Results)
        } else {
            let activation = self.frames.last();
            let first = activation.slots + function.parameters;
            if first + function.results > self.values.len() || activation.registers
                > self.values.len() {
                Step::Fault(Fault::Results)
            } else {
                let results = self.values.subrange(first, first + function.results);
                if self.frames.len() == 1 {
                    Step::Done(results)
                } else {
                    Step::Next(
                        StateView {
                            values: self.values.take(activation.registers as int),
                            frames: self.frames.drop_last(),
                            results,
                            ..self
                        },
                    )
                }
            }
        }
    }

    /// What `instruction` leads to in the innermost function, which is `function`.
    pub open spec fn execute(self, module: ModuleView, function: FunctionView, instruction: Instruction) -> Step {
        match instruction {
            Instruction::Allocate { slot } => Step::Next(self),
            Instruction::Load { result, pointer } => match self.operand(function, pointer.offset) {
                None => Step::Fault(Fault::Register),
                Some(offset) => match self.load(function, pointer.space, offset) {
                    None => Step::Fault(Fault::Slot),
                    Some(word) => match self.with_register(function, result, word) {
                        None => Step::Fault(Fault::Register),
                        Some(next) => Step::Next(next),
                    },
                },
            },
            Instruction::Store { pointer, value } => match (
                self.operand(function, pointer.offset),
                self.operand(function, value),
            ) {
                (Some(offset), Some(word)) => match self.store(
                    function,
                    pointer.space,
                    offset,
                    word,
                ) {
                    None => Step::Fault(Fault::Slot),
                    Some(next) => Step::Next(next),
                },
                _ => Step::Fault(Fault::Register),
            },
            Instruction::Binary { result, operator, left, right } => match (
                self.operand(function, left),
                self.operand(function, right),
            ) {
                (Some(left), Some(right)) => match binary(operator, left, right) {
                    None => Step::Fault(Fault::Width),
                    Some(word) => match self.with_register(function, result, word) {
                        None => Step::Fault(Fault::Register),
                        Some(next) => Step::Next(next),
                    },
                },
                _ => Step::Fault(Fault::Register),
            },
            Instruction::Compare { result, predicate, left, right } => match (
                self.operand(function, left),
                self.operand(function, right),
            ) {
                (Some(left), Some(right)) => match self.with_register(
                    function,
                    result,
                    if holds(predicate, left, right) {
                        Word::small(1)
                    } else {
                        Word::small(0)
                    },
                ) {
                    None => Step::Fault(Fault::Register),
                    Some(next) => Step::Next(next),
                },
                _ => Step::Fault(Fault::Register),
            },
            Instruction::Truncate { result, value, bits } => match self.operand(function, value) {
                None => Step::Fault(Fault::Register),
                Some(word) => match self.with_register(function, result, truncated(word, bits)) {
                    None => Step::Fault(Fault::Register),
                    Some(next) => Step::Next(next),
                },
            },
            Instruction::Intrinsic { result, intrinsic, argument } => Step::Fault(Fault::Intrinsic),
            Instruction::MemoryCopy { intrinsic, destination, source, size } => Step::Fault(
                Fault::Intrinsic,
            ),
            Instruction::Argument { value } => match self.operand(function, value) {
                None => Step::Fault(Fault::Register),
                Some(word) => Step::Next(
                    StateView { arguments: self.arguments.push(word), ..self },
                ),
            },
            Instruction::Call { function: index } => match function_at(module, index) {
                None => Step::Fault(Fault::UnknownFunction),
                Some(callee) => match self.call(index, callee) {
                    None => Step::Fault(Fault::Arguments),
                    Some(next) => Step::Next(next),
                },
            },
            Instruction::Result { result, index } => if index < self.results.len() {
                match self.with_register(function, result, self.results[index as int]) {
                    None => Step::Fault(Fault::Register),
                    Some(next) => Step::Next(next),
                }
            } else {
                Step::Fault(Fault::Results)
            },
            Instruction::Branch { target } => Step::Next(self.at(target, 0)),
            Instruction::ConditionalBranch { condition, then_block, else_block } => match self.operand(
                function,
                condition,
            ) {
                None => Step::Fault(Fault::Register),
                Some(word) => if word.value() != 0 {
                    Step::Next(self.at(then_block, 0))
                } else {
                    Step::Next(self.at(else_block, 0))
                },
            },
            Instruction::Return => self.leave(function),
            Instruction::Throw => Step::Fault(Fault::Thrown),
        }
    }

    /// What one step leads to: the next instruction of the block that the
    /// innermost function stands in is looked for and run.
    pub open spec fn step(self, module: ModuleView) -> Step {
        if self.frames.len() == 0 {
            Step::Fault(Fault::UnknownFunction)
        } else {
            let activation = self.frames.last();
            match function_at(module, activation.function) {
                None => Step::Fault(Fault::UnknownFunction),
                Some(function) => match next_in_block(
                    function.code,
                    activation.block,
                    activation.position as int,
                ) {
                    None => Step::Fault(Fault::EndOfBlock),
                    Some(place) => self.at(activation.block, (place + 1) as usize).execute(
                        module,
                        function,
                        function.code[place].instruction,
                    ),
                },
            }
        }
    }

    /// What the machine ends with when it goes on from the state for at
    /// most `fuel` steps.
    pub open spec fn run(self, module: ModuleView, fuel: nat) -> Result<Seq<Word>, Fault>
        decreases fuel,
    {
        if fuel == 0 {
            Err(Fault::OutOfFuel)
        } else {
            match self.step(module) {
                Step::Next(next) => next.run(module, (fuel - 1) as nat),
                Step::Done(results) => Ok(results),
                Step::Fault(fault) => Err(fault),
            }
        }
    }
}

/// What a call of the function `function` of `module` with `arguments`
/// ends with when the machine is given `fuel` steps.
pub open spec fn run_function(module: ModuleView, function: usize, arguments: Seq<Word>, fuel: nat) -> Result<
    Seq<Word>,
    Fault,
> {
    match function_at(module, function) {
        None => Err(Fault::UnknownFunction),
        Some(callee) => match StateView::start(arguments).call(function, callee) {
            None => Err(Fault::Arguments),
            Some(state) => state.run(module, fuel),
        },
    }
}

/// Whether a machine that made a step, is left in the state `after` and
/// handed back `result` did what `step` asks for.
pub open spec fn stepped(step: Step, after: StateView, result: Result<Option<Vec<Word>>, Fault>) -> bool {
    match step {
        Step::Next(next) => result == Ok::<Option<Vec<Word>>, Fault>(None) && after == next,
        Step::Done(results) => result matches Ok(Some(found)) && found@ == results,
        Step::Fault(fault) => result == Err::<Option<Vec<Word>>, Fault>(fault),
    }
}

impl Module {
    /// The function `index`; the number of functions stands for the code
    /// outside any function.
    pub fn function_at(&self, index: usize) -> (found: Option<&Function>)
        ensures
            match function_at(self@, index) {
                Some(function) => found matches Some(held) && held@ == function,
                None => found is None,
            },
    {
        if index < self.functions.len() {
            Some(&self.functions[index])
        } else if index == self.functions.len() {
            Some(&self.entry)
        } else {
            None
        }
    }
}

/// Finds the place of the first instruction of `block` at or after `from`.
fn find_in_block(code: &Vec<Placed>, block: usize, from: usize) -> (found: Option<usize>)
    ensures
        match next_in_block(code@, block, from as int) {
            Some(place) => found matches Some(at) && at == place && at < code.len(),
            None => found is None,
        },
{
    let mut at: usize = from;
    while at < code.len()
        invariant
            from <= at,
            next_in_block(code@, block, at as int) == next_in_block(code@, block, from as int),
        decreases code.len() - at,
    {
        if code[at].block == block {
            return Some(at);
        }
        at = at + 1;
    }
    None
}

impl State {
    /// The state before anything runs, with `arguments` handed on.
    pub fn new(arguments: Vec<Word>) -> (state: State)
        ensures
            state@ == StateView::start(arguments@),
    {
        State {
            values: Vec::new(),
            frames: Vec::new(),
            arguments,
            results: Vec::new(),
            heap: Vec::new(),
            parent: Vec::new(),
        }
    }

    /// Reads `operand` in the innermost function.
    fn operand(&self, function: &Function, operand: Operand) -> (word: Option<Word>)
        ensures
            word == self@.operand(function@, operand),
    {
        match operand {
            Operand::Constant(word) => Some(word),
            Operand::Register(register) => {
                if self.frames.len() == 0 || register >= function.registers {
                    return None;
                }
                let count = self.values.len();
                match self.frames[self.frames.len() - 1].registers.checked_add(register) {
                    Some(place) => if place < count {
                        Some(self.values[place])
                    } else {
                        None
                    },
                    None => None,
                }
            },
        }
    }

    /// Writes `word` to the register `register` of the innermost function.
    fn set_register(&mut self, function: &Function, register: usize, word: Word) -> (done: bool)
        ensures
            match old(self)@.with_register(function@, register, word) {
                Some(next) => done && final(self)@ == next,
                None => !done,
            },
    {
        if self.frames.len() == 0 || register >= function.registers {
            return false;
        }
        let count = self.values.len();
        match self.frames[self.frames.len() - 1].registers.checked_add(register) {
            Some(place) => if place < count {
                self.values.set(place, word);
                true
            } else {
                false
            },
            None => false,
        }
    }

    /// Finds the place among the values of the variable `slot` of the
    /// innermost function.
    fn slot(&self, function: &Function, slot: Word) -> (place: Option<usize>)
        ensures
            match self@.slot(function@, slot) {
                Some(found) => place matches Some(at) && at == found && at < self.values.len(),
                None => place is None,
            },
    {
        if self.frames.len() == 0 || !slot.is_small() || slot.limb0 >= function.slots as u64 {
            return None;
        }
        let count = self.values.len();
        match self.frames[self.frames.len() - 1].slots.checked_add(slot.limb0 as usize) {
            Some(place) => if place < count {
                Some(place)
            } else {
                None
            },
            None => None,
        }
    }

    /// Reads the word at the offset `offset` of `space`.
    fn load(&self, function: &Function, space: AddressSpace, offset: Word) -> (word: Option<Word>)
        ensures
            word == self@.load(function@, space, offset),
    {
        match space {
            AddressSpace::Heap => Some(read_memory(&self.heap, offset)),
            AddressSpace::Parent => Some(read_memory(&self.parent, offset)),
            AddressSpace::Stack => match self.slot(function, offset) {
                Some(place) => Some(self.values[place]),
                None => None,
            },
        }
    }

    /// Writes `word` at the offset `offset` of `space`.
    fn store(&mut self, function: &Function, space: AddressSpace, offset: Word, word: Word) -> (done:
        bool)
        ensures
            match old(self)@.store(function@, space, offset, word) {
                Some(next) => done && final(self)@ == next,
                None => !done,
            },
    {
        match space {
            AddressSpace::Heap => {
                self.heap.push(Cell { address: offset, value: word });
                true
            },
            AddressSpace::Parent => {
                self.parent.push(Cell { address: offset, value: word });
                true
            },
            AddressSpace::Stack => match self.slot(function, offset) {
                Some(place) => {
                    self.values.set(place, word);
                    true
                },
                None => false,
            },
        }
    }

    /// Moves the innermost function to `block`, to look for its next
    /// instruction from `position` on.
    fn go(&mut self, block: usize, position: usize)
        requires
            old(self)@.frames.len() > 0,
        ensures
            final(self)@ == old(self)@.at(block, position),
    {
        let last = self.frames.len() - 1;
        let activation = self.frames[last];
        self.frames.set(last, Activation { block, position, ..activation });
    }

    /// Calls the function `index`, which is `function`, with the arguments
    /// handed on.
    fn call(&mut self, index: usize, function: &Function) -> (done: bool)
        ensures
            match old(self)@.call(index, function@) {
                Some(next) => done && final(self)@ == next,
                None => !done,
            },
    {
        if self.arguments.len() != function.parameters || function.parameters > function.slots {
            return false;
        }
        let ghost before = self@;
        let registers = self.values.len();
        let mut made: usize = 0;
        while made < function.registers
            invariant
                made <= function.registers,
                self@.values == before.values + Seq::new(made as nat, |i: int| Word::small(0)),
                self@.frames == before.frames,
                self@.arguments == before.arguments,
                self@.results == before.results,
                self@.heap == before.heap,
                self@.parent == before.parent,
            decreases function.registers - made,
        {
            self.values.push(Word::from_u64(0));
            made = made + 1;
            assert(self@.values =~= before.values + Seq::new(made as nat, |i: int| Word::small(0)));
        }
        let slots = self.values.len();
        let ghost cleared = before.values + Seq::new(function.registers as nat, |i: int| Word::small(0));
        let mut made: usize = 0;
        while made < function.slots
            invariant
                made <= function.slots,
                self.arguments@.len() == function.parameters,
                cleared == before.values + Seq::new(function.registers as nat, |i: int| Word::small(0)),
                self@.values == cleared + Seq::new(
                    made as nat,
                    |i: int|
                        if i < before.arguments.len() {
                            before.arguments[i]
                        } else {
                            Word::small(0)
                        },
                ),
                self@.frames == before.frames,
                self@.arguments == before.arguments,
                self@.results == before.results,
                self@.heap == before.heap,
                self@.parent == before.parent,
            decreases function.slots - made,
        {
            let word = if made < self.arguments.len() {
                self.arguments[made]
            } else {
                Word::from_u64(0)
            };
            self.values.push(word);
            made = made + 1;
            assert(self@.values =~= cleared + Seq::new(
                made as nat,
                |i: int|
                    if i < before.arguments.len() {
                        before.arguments[i]
                    } else {
                        Word::small(0)
                    },
            ));
        }
        self.frames.push(Activation { function: index, block: 0, position: 0, registers, slots });
        self.arguments.clear();
        assert(self@.arguments =~= Seq::<Word>::empty());
        true
    }

    /// Returns from the innermost function, which is `function`.
    fn leave(&mut self, function: &Function) -> (result: Result<Option<Vec<Word>>, Fault>)
        ensures
            stepped(old(self)@.leave(function@), final(self)@, result),
    {
        if self.frames.len() == 0 {
            return Err(Fault::Results);
        }
        let count = self.values.len();
        let activation = self.frames[self.frames.len() - 1];
        let first = match activation.slots.checked_add(function.parameters) {
            Some(first) => first,
            None => {
                return Err(Fault::Results);
            },
        };
        let end = match first.checked_add(function.results) {
            Some(end) => end,
            None => {
                return Err(Fault::Results);
            },
        };
        if end > self.values.len() || activation.registers > self.values.len() {
            return Err(Fault::Results);
        }
        let mut results: Vec<Word> = Vec::new();
        let mut at: usize = first;
        while at < end
            invariant
                first <= at <= end <= self.values.len(),
                results@ == self.values@.subrange(first as int, at as int),
            decreases end - at,
        {
            results.push(self.values[at]);
            at = at + 1;
            assert(results@ =~= self.values@.subrange(first as int, at as int));
        }
        if self.frames.len() == 1 {
            return Ok(Some(results));
        }
        self.values.truncate(activation.registers);
        self.frames.pop();
        self.results = results;
        Ok(None)
    }

    /// Runs `instruction` in the innermost function, which is `function`.
    fn execute(&mut self, module: &Module, function: &Function, instruction: Instruction) -> (result:
        Result<Option<Vec<Word>>, Fault>)
        requires
            old(self)@.frames.len() > 0,
        ensures
            stepped(
                old(self)@.execute(module@, function@, instruction),
                final(self)@,
                result,
            ),
    {
        match instruction {
            Instruction::Allocate { slot } => Ok(None),
            Instruction::Load { result, pointer } => {
                let offset = match self.operand(function, pointer.offset) {
                    Some(offset) => offset,
                    None => {
                        return Err(Fault::Register);
                    },
                };
                let word = match self.load(function, pointer.space, offset) {
                    Some(word) => word,
                    None => {
                        return Err(Fault::Slot);
                    },
                };
                if self.set_register(function, result, word) {
                    Ok(None)
                } else {
                    Err(Fault::Register)
                }
            },
            Instruction::Store { pointer, value } => {
                let offset = self.operand(function, pointer.offset);
                let word = self.operand(function, value);
                match (offset, word) {
                    (Some(offset), Some(word)) => if self.store(
                        function,
                        pointer.space,
                        offset,
                        word,
                    ) {
                        Ok(None)
                    } else {
                        Err(Fault::Slot)
                    },
                    _ => Err(Fault::Register),
                }
            },
            Instruction::Binary { result, operator, left, right } => {
                let left = self.operand(function, left);
                let right = self.operand(function, right);
                match (left, right) {
                    (Some(left), Some(right)) => match compute(operator, left, right) {
                        None => Err(Fault::Width),
                        Some(word) => if self.set_register(function, result, word) {
                            Ok(None)
                        } else {
                            Err(Fault::Register)
                        },
                    },
                    _ => Err(Fault::Register),
                }
            },
            Instruction::Compare { result, predicate, left, right } => {
                let left = self.operand(function, left);
                let right = self.operand(function, right);
                match (left, right) {
                    (Some(left), Some(right)) => {
                        let word = if compare(predicate, left, right) {
                            Word::from_u64(1)
                        } else {
                            Word::from_u64(0)
                        };
                        if self.set_register(function, result, word) {
                            Ok(None)
                        } else {
                            Err(Fault::Register)
                        }
                    },
                    _ => Err(Fault::Register),
                }
            },
            Instruction::Truncate { result, value, bits } => match self.operand(function, value) {
                None => Err(Fault::Register),
                Some(word) => if self.set_register(function, result, truncate(word, bits)) {
                    Ok(None)
                } else {
                    Err(Fault::Register)
                },
            },
            Instruction::Intrinsic { result, intrinsic, argument } => Err(Fault::Intrinsic),
            Instruction::MemoryCopy { intrinsic, destination, source, size } => Err(
                Fault::Intrinsic,
            ),
            Instruction::Argument { value } => match self.operand(function, value) {
                None => Err(Fault::Register),
                Some(word) => {
                    self.arguments.push(word);
                    Ok(None)
                },
            },
            Instruction::Call { function: index } => match module.function_at(index) {
                None => Err(Fault::UnknownFunction),
                Some(callee) => if self.call(index, callee) {
                    Ok(None)
                } else {
                    Err(Fault::Arguments)
                },
            },
            Instruction::Result { result, index } => if index < self.results.len() {
                let word = self.results[index];
                if self.set_register(function, result, word) {
                    Ok(None)
                } else {
                    Err(Fault::Register)
                }
            } else {
                Err(Fault::Results)
            },
            Instruction::Branch { target } => {
                self.go(target, 0);
                Ok(None)
            },
            Instruction::ConditionalBranch { condition, then_block, else_block } => match self.operand(
                function,
                condition,
            ) {
                None => Err(Fault::Register),
                Some(word) => {
                    if !word.is_zero() {
                        self.go(then_block, 0);
                    } else {
                        self.go(else_block, 0);
                    }
                    Ok(None)
                },
            },
            Instruction::Return => self.leave(function),
            Instruction::Throw => Err(Fault::Thrown),
        }
    }

    /// Makes one step: hands back the results where the outermost function
    /// has ended, and nothing where the machine goes on.
    pub fn step(&mut self, module: &Module) -> (result: Result<Option<Vec<Word>>, Fault>)
        ensures
            stepped(old(self)@.step(module@), final(self)@, result),
    {
        if self.frames.len() == 0 {
            return Err(Fault::UnknownFunction);
        }
        let activation = self.frames[self.frames.len() - 1];
        let function = match module.function_at(activation.function) {
            Some(function) => function,
            None => {
                return Err(Fault::UnknownFunction);
            },
        };
        let place = match find_in_block(&function.code, activation.block, activation.position) {
            Some(place) => place,
            None => {
                return Err(Fault::EndOfBlock);
            },
        };
        let count = function.code.len();
        let instruction = function.code[place].instruction;
        self.go(activation.block, place + 1);
        self.execute(module, function, instruction)
    }
}

/// Runs the function `function` of `module` with `arguments`, for at most
/// `fuel` steps; hands back its results.
pub fn run(module: &Module, function: usize, arguments: Vec<Word>, fuel: u64) -> (result: Result<
    Vec<Word>,
    Fault,
>)
    ensures
        match run_function(module@, function, arguments@, fuel as nat) {
            Ok(results) => result matches Ok(found) && found@ == results,
            Err(fault) => result == Err::<Vec<Word>, Fault>(fault),
        },
{
    let callee = match module.function_at(function) {
        Some(callee) => callee,
        None => {
            return Err(Fault::UnknownFunction);
        },
    };
    let mut state = State::new(arguments);
    if !state.call(function, callee) {
        return Err(Fault::Arguments);
    }
    let ghost start = state@;
    let mut left: u64 = fuel;
    while left > 0
        invariant
            run_function(module@, function, arguments@, fuel as nat) == state@.run(
                module@,
                left as nat,
            ),
        decreases left,
    {
        match state.step(module) {
            Ok(None) => {},
            Ok(Some(results)) => {
                return Ok(results);
            },
            Err(fault) => {
                return Err(fault);
            },
        }
        left = left - 1;
    }
    Err(Fault::OutOfFuel)
}

} // verus!


