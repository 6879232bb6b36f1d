//! The context of the generator: the module that is being built, the
//! function that instructions are put into, and what the source has named.

use vstd::prelude::*;
use crate::generator::ir::AddressSpace;
use crate::generator::ir::BasicBlock;
use crate::generator::ir::BinaryOperator;
use crate::generator::ir::Function;
use crate::generator::ir::FunctionView;
use crate::generator::ir::Instruction;
use crate::generator::ir::IntPredicate;
use crate::generator::ir::Intrinsic;
use crate::generator::ir::Label;
use crate::generator::ir::LoopFrame;
use crate::generator::ir::Operand;
use crate::generator::ir::Placed;
use crate::generator::ir::ends_block;
use crate::generator::ir::Pointer;
use crate::generator::lowering::restore;
use crate::parser::lemma_views_push;
use crate::parser::views;
verus! {

/// The backend that the code is generated for.
#[derive(Debug, Clone, Copy, PartialEq, Eq, Structural)]
pub enum Target {
    /// A generic low-level backend, which has no contract context.
    Generic,
    /// The virtual machine.
    Machine,
}

/// The number of bytes in a machine word.
pub const FIELD_SIZE: u64 = 32;

/// The number of bits that a condition is cut to.
pub const BOOLEAN_BITS: u32 = 1;

/// The word of the parent's memory that holds the size of the returned data, in words.
pub const OFFSET_RETURN_DATA_SIZE: u64 = 1;

/// The word of the parent's memory where the returned data starts.
pub const OFFSET_CALL_RETURN_DATA: u64 = 8;

/// A name of the source and the number behind it: of a variable, its place
/// on the stack; of a function, its place in the module.
#[derive(Debug, Clone, PartialEq, Eq)]
pub struct Binding {
    /// The name.
    pub name: String,
    /// The number.
    pub index: usize,
}

/// The model of a [`Binding`].
pub struct BindingView {
    pub name: Seq<char>,
    pub index: usize,
}

impl View for Binding {
    type V = BindingView;

    open spec fn view(&self) -> BindingView {
        BindingView { name: self.name@, index: self.index }
    }
}

/// The number behind `name` in `bindings`: that of the last binding of the name.
pub open spec fn lookup(bindings: Seq<BindingView>, name: Seq<char>) -> Option<usize>
    decreases bindings.len(),
{
    if bindings.len() == 0 {
        None
    } else if bindings.last().name == name {
        Some(bindings.last().index)
    } else {
        lookup(bindings.drop_last(), name)
    }
}

/// Finds the number behind `name` in `bindings`.
pub fn find(bindings: &Vec<Binding>, name: &String) -> (found: Option<usize>)
    ensures
        found == lookup(views(*bindings), name@),
{
    let mut at: usize = bindings.len();
    assert(views(*bindings).take(at as int) =~= views(*bindings));
    while at > 0
        invariant
            at <= bindings.len(),
            lookup(views(*bindings).take(at as int), name@) == lookup(views(*bindings), name@),
        decreases at,
    {
        at = at - 1;
        assert(views(*bindings).take(at + 1).drop_last() =~= views(*bindings).take(at as int));
        if bindings[at].name == *name {
            return Some(bindings[at].index);
        }
    }
    None
}

/// The function that instructions are put into.
pub struct Frame {
    /// The basic blocks made so far.
    pub blocks: Vec<BasicBlock>,
    /// The instructions generated so far.
    pub code: Vec<Placed>,
    /// The block that instructions are put into.
    pub current: usize,
    /// The number of registers used so far.
    pub registers: usize,
    /// The number of variables made so far.
    pub slots: usize,
    /// The block that ends the function normally.
    pub return_block: usize,
    /// The block that ends the function abnormally.
    pub throw_block: usize,
    /// The loops that the generator is in, the innermost last.
    pub loops: Vec<LoopFrame>,
    /// The variables in scope.
    pub variables: Vec<Binding>,
}

/// The model of a [`Frame`].
pub struct FrameView {
    pub blocks: Seq<BasicBlock>,
    pub code: Seq<Placed>,
    pub current: usize,
    pub registers: usize,
    pub slots: usize,
    pub return_block: usize,
    pub throw_block: usize,
    pub loops: Seq<LoopFrame>,
    pub variables: Seq<BindingView>,
}

impl View for Frame {
    type V = FrameView;

    open spec fn view(&self) -> FrameView {
        FrameView {
            blocks: self.blocks@,
            code: self.code@,
            current: self.current,
            registers: self.registers,
            slots: self.slots,
            return_block: self.return_block,
            throw_block: self.throw_block,
            loops: self.loops@,
            variables: views(self.variables),
        }
    }
}

impl FrameView {
    /// The frame of a function before its first instruction: an entry block,
    /// where instructions go, a return block and a throw block.
    pub open spec fn start() -> FrameView {
        FrameView {
            blocks: seq![
                BasicBlock { label: Label::Entry, terminated: false },
                BasicBlock { label: Label::Return, terminated: true },
                BasicBlock { label: Label::Throw, terminated: true },
            ],
            code: seq![
                Placed { block: 1, instruction: Instruction::Return },
                Placed { block: 2, instruction: Instruction::Throw },
            ],
            current: 0,
            registers: 0,
            slots: 0,
            return_block: 1,
            throw_block: 2,
            loops: Seq::empty(),
            variables: Seq::empty(),
        }
    }

    /// The invariant of a frame: the blocks that it names exist; every
    /// register and every variable was made by an instruction; every
    /// instruction stands in a block and names blocks that exist; and a
    /// block that is marked as ended holds an instruction that ends it.
    pub open spec fn well_formed(self) -> bool {
        &&& self.current < self.blocks.len()
        &&& self.return_block < self.blocks.len()
        &&& self.throw_block < self.blocks.len()
        &&& self.registers <= self.code.len()
        &&& self.slots <= self.code.len()
        &&& forall|i: int|
            0 <= i < self.code.len() ==> (#[trigger] self.code[i]).block < self.blocks.len()
                && self.code[i].instruction.within(self.blocks.len())
        &&& forall|i: int|
            0 <= i < self.loops.len() ==> (#[trigger] self.loops[i]).continue_block
                < self.blocks.len() && self.loops[i].break_block < self.blocks.len()
        &&& forall|b: int|
            0 <= b < self.blocks.len() && (#[trigger] self.blocks[b]).terminated ==> ends_block(
                self.code,
                b,
            )
    }

    /// Whether the blocks have been linked up since `before`: code has gone
    /// into the current block only, which is the one of `before` or a new
    /// one; every new block but the current one is ended; and so is the
    /// block that was current, if it is current no more.
    pub open spec fn linked_from(self, before: FrameView) -> bool {
        &&& self.current == before.current || self.current >= before.blocks.len()
        &&& forall|b: int|
            0 <= b < before.blocks.len() && b != before.current ==> #[trigger] self.blocks[b]
                == before.blocks[b]
        &&& forall|b: int|
            before.blocks.len() <= b < self.blocks.len() && b != self.current ==> (
            #[trigger] self.blocks[b]).terminated
        &&& self.current != before.current ==> self.blocks[before.current as int].terminated
    }

    /// Linking up goes on: what has been linked up since a frame that had
    /// itself been linked up since `before` has been linked up since `before`.
    pub proof fn lemma_linked_on(self, middle: FrameView, before: FrameView)
        requires
            middle.linked_from(before),
            self.linked_from(middle),
            before.blocks.len() <= middle.blocks.len() <= self.blocks.len(),
            before.current < before.blocks.len(),
            middle.current < middle.blocks.len(),
        ensures
            self.linked_from(before),
    {
        assert forall|b: int|
            0 <= b < before.blocks.len() && b != before.current implies #[trigger] self.blocks[b]
            == before.blocks[b] by {
            assert(middle.blocks[b] == before.blocks[b]);
            assert(self.blocks[b] == middle.blocks[b]);
        }
        assert forall|b: int|
            before.blocks.len() <= b < self.blocks.len() && b != self.current implies (
        #[trigger] self.blocks[b]).terminated by {
            if b < middle.blocks.len() {
                if b != middle.current {
                    assert(middle.blocks[b].terminated);
                    assert(self.blocks[b] == middle.blocks[b]);
                }
            }
        }
        if self.current != before.current {
            if middle.current != before.current {
                assert(middle.blocks[before.current as int].terminated);
                assert(self.blocks[before.current as int] == middle.blocks[before.current as int]);
            }
        }
    }

    /// Whether the blocks have been linked up since `before` but for the
    /// blocks `pending`, which have been made and are still to be filled.
    pub open spec fn linked_but(self, before: FrameView, pending: Set<int>) -> bool {
        &&& before.current < before.blocks.len()
        &&& before.blocks.len() <= self.blocks.len()
        &&& self.current < self.blocks.len()
        &&& self.current == before.current || self.current >= before.blocks.len()
        &&& !pending.contains(self.current as int)
        &&& forall|b: int|
            pending.contains(b) ==> before.blocks.len() <= b < self.blocks.len()
        &&& forall|b: int|
            0 <= b < before.blocks.len() && b != before.current ==> #[trigger] self.blocks[b]
                == before.blocks[b]
        &&& forall|b: int|
            before.blocks.len() <= b < self.blocks.len() && b != self.current
                && !pending.contains(b) ==> (#[trigger] self.blocks[b]).terminated
        &&& self.current != before.current ==> self.blocks[before.current as int].terminated
    }

    /// With no block pending, the blocks have been linked up.
    pub proof fn lemma_linked_all(self, before: FrameView)
        requires
            self.linked_but(before, Set::empty()),
        ensures
            self.linked_from(before),
    {
    }

    /// Blocks that have been linked up have been so with no block pending.
    pub proof fn lemma_linked_none(self, before: FrameView)
        requires
            self.linked_from(before),
            before.current < before.blocks.len(),
            before.blocks.len() <= self.blocks.len(),
            self.current < self.blocks.len(),
        ensures
            self.linked_but(before, Set::empty()),
    {
    }

    /// A new block is pending.
    pub proof fn lemma_linked_append(self, before: FrameView, pending: Set<int>, label: Label)
        requires
            self.linked_but(before, pending),
        ensures
            self.append_block(label).linked_but(
                before,
                pending.insert(self.blocks.len() as int),
            ),
    {
        let after = self.append_block(label);
        assert forall|b: int|
            0 <= b < before.blocks.len() && b != before.current implies #[trigger] after.blocks[b]
            == before.blocks[b] by {
            assert(self.blocks[b] == before.blocks[b]);
        }
        assert forall|b: int|
            before.blocks.len() <= b < after.blocks.len() && b != after.current
                && !pending.insert(self.blocks.len() as int).contains(b) implies (
        #[trigger] after.blocks[b]).terminated by {
            assert(self.blocks[b].terminated);
        }
    }

    /// Code in the current block leaves the other blocks as they are.
    pub proof fn lemma_linked_emit(self, before: FrameView, pending: Set<int>, after: FrameView)
        requires
            self.linked_but(before, pending),
            after.current == self.current,
            after.blocks.len() == self.blocks.len(),
            forall|b: int|
                0 <= b < self.blocks.len() && b != self.current ==> #[trigger] after.blocks[b]
                    == self.blocks[b],
            self.blocks[self.current as int].terminated ==> after.blocks[
                self.current as int
            ].terminated,
        ensures
            after.linked_but(before, pending),
    {
        assert forall|b: int|
            0 <= b < before.blocks.len() && b != before.current implies #[trigger] after.blocks[b]
            == before.blocks[b] by {
            assert(self.blocks[b] == before.blocks[b]);
        }
        assert forall|b: int|
            before.blocks.len() <= b < after.blocks.len() && b != after.current
                && !pending.contains(b) implies (#[trigger] after.blocks[b]).terminated by {
            assert(self.blocks[b].terminated);
        }
    }

    /// A pending block becomes the current one once the current one is ended.
    pub proof fn lemma_linked_enter(self, before: FrameView, pending: Set<int>, block: usize)
        requires
            self.linked_but(before, pending),
            pending.contains(block as int),
            self.blocks[self.current as int].terminated,
        ensures
            self.set_block(block).linked_but(before, pending.remove(block as int)),
    {
        let after = self.set_block(block);
        assert forall|b: int|
            before.blocks.len() <= b < after.blocks.len() && b != after.current
                && !pending.remove(block as int).contains(b) implies (
        #[trigger] after.blocks[b]).terminated by {
            if b != self.current {
                assert(self.blocks[b].terminated);
            }
        }
    }

    /// What has been linked up since a frame leaves the blocks pending in
    /// that frame as they are.
    pub proof fn lemma_linked_region(self, entered: FrameView, before: FrameView, pending: Set<int>)
        requires
            entered.linked_but(before, pending),
            self.linked_from(entered),
            entered.blocks.len() <= self.blocks.len(),
            self.current < self.blocks.len(),
        ensures
            self.linked_but(before, pending),
    {
        assert forall|b: int|
            0 <= b < before.blocks.len() && b != before.current implies #[trigger] self.blocks[b]
            == before.blocks[b] by {
            assert(entered.blocks[b] == before.blocks[b]);
            assert(self.blocks[b] == entered.blocks[b]);
        }
        assert forall|b: int|
            before.blocks.len() <= b < self.blocks.len() && b != self.current
                && !pending.contains(b) implies (#[trigger] self.blocks[b]).terminated by {
            if b < entered.blocks.len() {
                if b != entered.current {
                    assert(entered.blocks[b].terminated);
                    assert(self.blocks[b] == entered.blocks[b]);
                }
            }
        }
        if self.current != before.current {
            if entered.current != before.current {
                assert(entered.blocks[before.current as int].terminated);
                assert(self.blocks[before.current as int] == entered.blocks[
                    before.current as int
                ]);
            }
        }
    }

    /// Whether every block is ended.
    pub open spec fn finished(self) -> bool {
        forall|b: int| 0 <= b < self.blocks.len() ==> (#[trigger] self.blocks[b]).terminated
    }

    /// The frame with a new block of `label` after the others.
    pub open spec fn append_block(self, label: Label) -> FrameView {
        FrameView { blocks: self.blocks.push(BasicBlock { label, terminated: false }), ..self }
    }

    /// The frame with instructions going into `block`.
    pub open spec fn set_block(self, block: usize) -> FrameView {
        FrameView { current: block, ..self }
    }

    /// The frame with `instruction` at the end of the current block. An
    /// instruction that ends a block marks the block as ended.
    pub open spec fn emit(self, instruction: Instruction) -> FrameView {
        FrameView {
            code: self.code.push(Placed { block: self.current, instruction }),
            blocks: if instruction.terminates() {
                self.blocks.update(
                    self.current as int,
                    BasicBlock { label: self.blocks[self.current as int].label, terminated: true },
                )
            } else {
                self.blocks
            },
            ..self
        }
    }

    /// The frame with `instruction`, which yields the next register.
    pub open spec fn emit_value(self, instruction: Instruction) -> FrameView {
        FrameView { registers: (self.registers + 1) as usize, ..self.emit(instruction) }
    }

    /// The frame with `instruction`, which ends a block, at the end of the
    /// current block, unless that block is ended already.
    pub open spec fn terminate(self, instruction: Instruction) -> FrameView {
        if self.blocks[self.current as int].terminated {
            self
        } else {
            self.emit(instruction)
        }
    }

    /// The next register as an operand.
    pub open spec fn next_value(self) -> Operand {
        Operand::Register(self.registers)
    }
}

impl Frame {
    /// The frame of a function before its first instruction.
    pub fn new() -> (frame: Frame)
        ensures
            frame@ == FrameView::start(),
            frame@.well_formed(),
    {
        let frame = Frame {
            blocks: vec![
                BasicBlock { label: Label::Entry, terminated: false },
                BasicBlock { label: Label::Return, terminated: true },
                BasicBlock { label: Label::Throw, terminated: true },
            ],
            code: vec![
                Placed { block: 1, instruction: Instruction::Return },
                Placed { block: 2, instruction: Instruction::Throw },
            ],
            current: 0,
            registers: 0,
            slots: 0,
            return_block: 1,
            throw_block: 2,
            loops: Vec::new(),
            variables: Vec::new(),
        };
        assert(frame@.blocks =~= FrameView::start().blocks);
        assert(frame@.code =~= FrameView::start().code);
        assert(frame@.loops =~= FrameView::start().loops);
        assert(frame@.variables =~= FrameView::start().variables);
        frame
    }
}

/// The context of the generator.
pub struct Context {
    /// The backend that the code is generated for.
    pub target: Target,
    /// The functions of the module: those declared so far, with their
    /// bodies as far as these are generated.
    pub functions: Vec<Function>,
    /// The function that instructions are put into.
    pub frame: Frame,
    /// The functions in scope.
    pub visible: Vec<Binding>,
}

/// The model of a [`Context`].
pub struct ContextView {
    pub target: Target,
    pub functions: Seq<FunctionView>,
    pub frame: FrameView,
    pub visible: Seq<BindingView>,
}

impl View for Context {
    type V = ContextView;

    open spec fn view(&self) -> ContextView {
        ContextView {
            target: self.target,
            functions: views(self.functions),
            frame: self.frame@,
            visible: views(self.visible),
        }
    }
}

impl ContextView {
    /// The context of a compilation that has not started.
    pub open spec fn start(target: Target) -> ContextView {
        ContextView {
            target,
            functions: Seq::empty(),
            frame: FrameView::start(),
            visible: Seq::empty(),
        }
    }

    /// The invariant of the context: that of its frame; every function in
    /// scope is one of the module; and every function of the module is
    /// closed.
    pub open spec fn well_formed(self) -> bool {
        &&& self.frame.well_formed()
        &&& forall|i: int|
            0 <= i < self.visible.len() ==> (#[trigger] self.visible[i]).index
                < self.functions.len()
        &&& forall|i: int|
            0 <= i < self.functions.len() ==> (#[trigger] self.functions[i]).closed()
    }

    /// Whether the context has come from `before` by generating code in the
    /// same function: the blocks and the functions of `before` are still
    /// there, under their numbers; the exits of the function and the loops
    /// around are the same; and the blocks have been linked up.
    pub open spec fn grown_from(self, before: ContextView) -> bool {
        &&& self.kept_from(before)
        &&& self.frame.linked_from(before.frame)
    }

    /// Whether the blocks and the functions of `before` are still there,
    /// under their numbers, and the exits of the function and the loops
    /// around are the same.
    pub open spec fn kept_from(self, before: ContextView) -> bool {
        &&& before.frame.blocks.len() <= self.frame.blocks.len()
        &&& before.functions.len() <= self.functions.len()
        &&& self.frame.return_block == before.frame.return_block
        &&& self.frame.throw_block == before.frame.throw_block
        &&& self.frame.loops == before.frame.loops
        &&& self.target == before.target
    }

    /// Growing goes on: what has grown from a context that had itself
    /// grown from `before` has grown from `before`.
    pub proof fn lemma_grown_on(self, middle: ContextView, before: ContextView)
        requires
            middle.grown_from(before),
            self.grown_from(middle),
            before.well_formed(),
            middle.well_formed(),
        ensures
            self.grown_from(before),
    {
        self.frame.lemma_linked_on(middle.frame, before.frame);
    }

    /// A context has grown from itself.
    pub proof fn lemma_grown_at_once(self)
        ensures
            self.grown_from(self),
    {
    }

    /// The context with a new block of `label` after the others.
    pub open spec fn append_block(self, label: Label) -> ContextView {
        ContextView { frame: self.frame.append_block(label), ..self }
    }

    /// The number that the next new block gets.
    pub open spec fn next_block(self) -> usize {
        self.frame.blocks.len() as usize
    }

    /// The context with instructions going into `block`.
    pub open spec fn set_block(self, block: usize) -> ContextView {
        ContextView { frame: self.frame.set_block(block), ..self }
    }

    /// The context with `instruction` at the end of the current block.
    pub open spec fn emit(self, instruction: Instruction) -> ContextView {
        ContextView { frame: self.frame.emit(instruction), ..self }
    }

    /// The context with `instruction`, which yields the next register.
    pub open spec fn emit_value(self, instruction: Instruction) -> ContextView {
        ContextView { frame: self.frame.emit_value(instruction), ..self }
    }

    /// The context with `instruction`, which ends a block, at the end of the
    /// current block, unless that block is ended already.
    pub open spec fn terminate(self, instruction: Instruction) -> ContextView {
        ContextView { frame: self.frame.terminate(instruction), ..self }
    }

    /// The next register as an operand.
    pub open spec fn next_value(self) -> Operand {
        self.frame.next_value()
    }

    /// The context with a branch to `target` at the end of the current block.
    pub open spec fn branch(self, target: usize) -> ContextView {
        self.terminate(Instruction::Branch { target })
    }

    /// The context with a branch on `condition` at the end of the current block.
    pub open spec fn conditional_branch(
        self,
        condition: Operand,
        then_block: usize,
        else_block: usize,
    ) -> ContextView {
        self.terminate(Instruction::ConditionalBranch { condition, then_block, else_block })
    }

    /// The context with a load from `pointer`; the value is the next register.
    pub open spec fn load(self, pointer: Pointer) -> ContextView {
        self.emit_value(Instruction::Load { result: self.frame.registers, pointer })
    }

    /// The context with a store of `value` at `pointer`.
    pub open spec fn store(self, pointer: Pointer, value: Operand) -> ContextView {
        self.emit(Instruction::Store { pointer, value })
    }

    /// The context with a new variable; its number is the number of variables before.
    pub open spec fn alloca(self) -> ContextView {
        ContextView {
            frame: FrameView {
                slots: (self.frame.slots + 1) as usize,
                ..self.frame.emit(Instruction::Allocate { slot: self.frame.slots })
            },
            ..self
        }
    }

    /// The pointer to the variable `slot`.
    pub open spec fn variable(slot: usize) -> Pointer {
        Pointer { space: AddressSpace::Stack, offset: Operand::number(slot as u64) }
    }

    /// The context with `left operator right`; the value is the next register.
    pub open spec fn binary(
        self,
        operator: BinaryOperator,
        left: Operand,
        right: Operand,
    ) -> ContextView {
        self.emit_value(
            Instruction::Binary { result: self.frame.registers, operator, left, right },
        )
    }

    /// The context with a comparison; the value is the next register.
    pub open spec fn compare(
        self,
        predicate: IntPredicate,
        left: Operand,
        right: Operand,
    ) -> ContextView {
        self.emit_value(
            Instruction::Compare { result: self.frame.registers, predicate, left, right },
        )
    }

    /// The context with `value` cut to `bits` bits; the value is the next register.
    pub open spec fn truncate(self, value: Operand, bits: u32) -> ContextView {
        self.emit_value(Instruction::Truncate { result: self.frame.registers, value, bits })
    }

    /// The context with a call of `intrinsic`. Where the intrinsic yields a
    /// value, it is the next register.
    pub open spec fn call(self, intrinsic: Intrinsic, argument: Option<Operand>) -> ContextView {
        if intrinsic.yields() {
            self.emit_value(
                Instruction::Intrinsic {
                    result: Some(self.frame.registers),
                    intrinsic,
                    argument,
                },
            )
        } else {
            self.emit(Instruction::Intrinsic { result: None, intrinsic, argument })
        }
    }

    /// The context with a copy of `size` bytes by `intrinsic`.
    pub open spec fn memcpy(
        self,
        intrinsic: Intrinsic,
        destination: Pointer,
        source: Pointer,
        size: Operand,
    ) -> ContextView {
        self.emit(Instruction::MemoryCopy { intrinsic, destination, source, size })
    }

    /// The context with `value` rounded up to whole words: `31` is added,
    /// the sum divided by `32` and the quotient multiplied by `32`. The
    /// rounded value is the register after the next two.
    pub open spec fn ceil32(self, value: Operand) -> ContextView {
        let added = self.binary(BinaryOperator::Add, value, Operand::number(31));
        let divided = added.binary(
            BinaryOperator::UnsignedDiv,
            self.next_value(),
            Operand::number(FIELD_SIZE),
        );
        divided.binary(BinaryOperator::Mul, added.next_value(), Operand::number(FIELD_SIZE))
    }

    /// The operand that holds `value` rounded up to whole words.
    pub open spec fn ceil32_value(self, value: Operand) -> Operand {
        let added = self.binary(BinaryOperator::Add, value, Operand::number(31));
        added.binary(
            BinaryOperator::UnsignedDiv,
            self.next_value(),
            Operand::number(FIELD_SIZE),
        ).next_value()
    }

    /// The context in a loop whose `continue` goes to `continue_block` and
    /// whose `break` goes to `break_block`.
    pub open spec fn push_loop(self, continue_block: usize, break_block: usize) -> ContextView {
        ContextView {
            frame: FrameView {
                loops: self.frame.loops.push(LoopFrame { continue_block, break_block }),
                ..self.frame
            },
            ..self
        }
    }

    /// The context out of the innermost loop.
    pub open spec fn pop_loop(self) -> ContextView {
        ContextView {
            frame: FrameView { loops: self.frame.loops.drop_last(), ..self.frame },
            ..self
        }
    }
}

impl Context {
    /// Creates the context of a compilation for `target`.
    pub fn new(target: Target) -> (context: Context)
        ensures
            context@ == ContextView::start(target),
            context@.well_formed(),
    {
        let context = Context {
            target,
            functions: Vec::new(),
            frame: Frame::new(),
            visible: Vec::new(),
        };
        assert(context@.functions =~= Seq::empty());
        assert(context@.visible =~= Seq::empty());
        context
    }

    /// Puts `instruction` at the end of the current block.
    fn emit(&mut self, instruction: Instruction)
        requires
            old(self)@.well_formed(),
            instruction.within(old(self)@.frame.blocks.len()),
        ensures
            final(self)@ == old(self)@.emit(instruction),
            final(self)@.well_formed(),
            final(self)@.grown_from(old(self)@),
    {
        self.frame.code.push(Placed { block: self.frame.current, instruction });
        if instruction.is_terminator() {
            let label = self.frame.blocks[self.frame.current].label;
            self.frame.blocks.set(self.frame.current, BasicBlock { label, terminated: true });
        }
        proof {
            let before = old(self)@.frame;
            let after = self@.frame;
            assert forall|b: int|
                0 <= b < after.blocks.len() && (#[trigger] after.blocks[b]).terminated implies ends_block(
                after.code,
                b,
            ) by {
                if b == before.current && instruction.terminates() {
                    assert(after.code[before.code.len() as int].block == b);
                } else {
                    assert(before.blocks[b].terminated);
                    let place = choose|i: int|
                        0 <= i < before.code.len() && (#[trigger] before.code[i]).block == b
                            && before.code[i].instruction.terminates();
                    assert(after.code[place] == before.code[place]);
                }
            }
        }
    }

    /// Puts `instruction`, which yields the next register, at the end of
    /// the current block.
    fn emit_value(&mut self, instruction: Instruction) -> (value: Operand)
        requires
            old(self)@.well_formed(),
            instruction.within(old(self)@.frame.blocks.len()),
        ensures
            final(self)@ == old(self)@.emit_value(instruction),
            final(self)@.well_formed(),
            final(self)@.grown_from(old(self)@),
            value == old(self)@.next_value(),
    {
        let value = Operand::Register(self.frame.registers);
        self.emit(instruction);
        let count = self.frame.code.len();
        assert(self.frame.registers < count);
        self.frame.registers = self.frame.registers + 1;
        value
    }

    /// Appends a basic block to the function.
    pub fn append_basic_block(&mut self, label: Label) -> (block: usize)
        requires
            old(self)@.well_formed(),
        ensures
            final(self)@ == old(self)@.append_block(label),
            final(self)@.well_formed(),
            block == old(self)@.next_block(),
            block == old(self)@.frame.blocks.len(),
            block < final(self)@.frame.blocks.len(),
    {
        let block = self.frame.blocks.len();
        self.frame.blocks.push(BasicBlock { label, terminated: false });
        block
    }

    /// Sets the block that instructions are put into.
    pub fn set_basic_block(&mut self, block: usize)
        requires
            old(self)@.well_formed(),
            block < old(self)@.frame.blocks.len(),
        ensures
            final(self)@ == old(self)@.set_block(block),
            final(self)@.well_formed(),
    {
        self.frame.current = block;
    }

    /// Tells whether the current block is ended.
    fn terminated(&self) -> (ended: bool)
        requires
            self@.well_formed(),
        ensures
            ended == self@.frame.blocks[self@.frame.current as int].terminated,
    {
        self.frame.blocks[self.frame.current].terminated
    }

    /// Ends the current block with a branch to `target`, unless it is ended already.
    pub fn build_unconditional_branch(&mut self, target: usize)
        requires
            old(self)@.well_formed(),
            target < old(self)@.frame.blocks.len(),
        ensures
            final(self)@ == old(self)@.branch(target),
            final(self)@.well_formed(),
            final(self)@.grown_from(old(self)@),
    {
        if !self.terminated() {
            self.emit(Instruction::Branch { target });
        }
    }

    /// Ends the current block with a branch to `then_block` where
    /// `condition` is not zero and to `else_block` where it is, unless the
    /// block is ended already.
    pub fn build_conditional_branch(
        &mut self,
        condition: Operand,
        then_block: usize,
        else_block: usize,
    )
        requires
            old(self)@.well_formed(),
            then_block < old(self)@.frame.blocks.len(),
            else_block < old(self)@.frame.blocks.len(),
        ensures
            final(self)@ == old(self)@.conditional_branch(condition, then_block, else_block),
            final(self)@.well_formed(),
            final(self)@.grown_from(old(self)@),
    {
        if !self.terminated() {
            self.emit(Instruction::ConditionalBranch { condition, then_block, else_block });
        }
    }

    /// The constant `value` as an operand.
    pub fn field_const(&self, value: u64) -> (operand: Operand)
        ensures
            operand == Operand::number(value),
    {
        Operand::small(value)
    }

    /// The pointer to `offset` in `space`.
    pub fn access_memory(&self, offset: Operand, space: AddressSpace) -> (pointer: Pointer)
        ensures
            pointer == (Pointer { space, offset }),
    {
        Pointer { space, offset }
    }

    /// Reads the word at `pointer`.
    pub fn build_load(&mut self, pointer: Pointer) -> (value: Operand)
        requires
            old(self)@.well_formed(),
        ensures
            final(self)@ == old(self)@.load(pointer),
            final(self)@.well_formed(),
            final(self)@.grown_from(old(self)@),
            value == old(self)@.next_value(),
    {
        self.emit_value(Instruction::Load { result: self.frame.registers, pointer })
    }

    /// Writes `value` at `pointer`.
    pub fn build_store(&mut self, pointer: Pointer, value: Operand)
        requires
            old(self)@.well_formed(),
        ensures
            final(self)@ == old(self)@.store(pointer, value),
            final(self)@.well_formed(),
            final(self)@.grown_from(old(self)@),
    {
        self.emit(Instruction::Store { pointer, value });
    }

    /// Makes a variable on the stack; hands back the pointer to it.
    pub fn build_alloca(&mut self) -> (pointer: Pointer)
        requires
            old(self)@.well_formed(),
        ensures
            final(self)@ == old(self)@.alloca(),
            final(self)@.well_formed(),
            final(self)@.grown_from(old(self)@),
            pointer == ContextView::variable(old(self)@.frame.slots),
    {
        let slot = self.frame.slots;
        self.emit(Instruction::Allocate { slot });
        let count = self.frame.code.len();
        assert(slot < count);
        self.frame.slots = slot + 1;
        Pointer { space: AddressSpace::Stack, offset: Operand::small(slot as u64) }
    }

    /// Computes `left operator right`.
    pub fn build_binary(&mut self, operator: BinaryOperator, left: Operand, right: Operand) -> (value:
        Operand)
        requires
            old(self)@.well_formed(),
        ensures
            final(self)@ == old(self)@.binary(operator, left, right),
            final(self)@.well_formed(),
            final(self)@.grown_from(old(self)@),
            value == old(self)@.next_value(),
    {
        self.emit_value(
            Instruction::Binary { result: self.frame.registers, operator, left, right },
        )
    }

    /// Compares `left` with `right`.
    pub fn build_int_compare(&mut self, predicate: IntPredicate, left: Operand, right: Operand) -> (value:
        Operand)
        requires
            old(self)@.well_formed(),
        ensures
            final(self)@ == old(self)@.compare(predicate, left, right),
            final(self)@.well_formed(),
            final(self)@.grown_from(old(self)@),
            value == old(self)@.next_value(),
    {
        self.emit_value(
            Instruction::Compare { result: self.frame.registers, predicate, left, right },
        )
    }

    /// Cuts `value` to its lowest `bits` bits.
    pub fn build_int_truncate(&mut self, value: Operand, bits: u32) -> (cut: Operand)
        requires
            old(self)@.well_formed(),
        ensures
            final(self)@ == old(self)@.truncate(value, bits),
            final(self)@.well_formed(),
            final(self)@.grown_from(old(self)@),
            cut == old(self)@.next_value(),
    {
        self.emit_value(Instruction::Truncate { result: self.frame.registers, value, bits })
    }

    /// Calls `intrinsic`; hands back the value where it yields one.
    pub fn build_call(&mut self, intrinsic: Intrinsic, argument: Option<Operand>) -> (value: Option<
        Operand,
    >)
        requires
            old(self)@.well_formed(),
        ensures
            final(self)@ == old(self)@.call(intrinsic, argument),
            final(self)@.well_formed(),
            final(self)@.grown_from(old(self)@),
            value == (if intrinsic.yields() {
                Some(old(self)@.next_value())
            } else {
                None
            }),
    {
        if intrinsic.returns_value() {
            Some(
                self.emit_value(
                    Instruction::Intrinsic {
                        result: Some(self.frame.registers),
                        intrinsic,
                        argument,
                    },
                ),
            )
        } else {
            self.emit(Instruction::Intrinsic { result: None, intrinsic, argument });
            None
        }
    }

    /// Copies `size` bytes from `source` to `destination` by `intrinsic`.
    pub fn build_memcpy(
        &mut self,
        intrinsic: Intrinsic,
        destination: Pointer,
        source: Pointer,
        size: Operand,
    )
        requires
            old(self)@.well_formed(),
        ensures
            final(self)@ == old(self)@.memcpy(intrinsic, destination, source, size),
            final(self)@.well_formed(),
            final(self)@.grown_from(old(self)@),
    {
        self.emit(Instruction::MemoryCopy { intrinsic, destination, source, size });
    }

    /// Rounds `value` up to whole words.
    pub fn ceil32(&mut self, value: Operand) -> (rounded: Operand)
        requires
            old(self)@.well_formed(),
        ensures
            final(self)@ == old(self)@.ceil32(value),
            final(self)@.well_formed(),
            final(self)@.grown_from(old(self)@),
            rounded == old(self)@.ceil32_value(value),
    {
        let added = self.build_binary(BinaryOperator::Add, value, Operand::small(31));
        let divided = self.build_binary(
            BinaryOperator::UnsignedDiv,
            added,
            Operand::small(FIELD_SIZE),
        );
        self.build_binary(BinaryOperator::Mul, divided, Operand::small(FIELD_SIZE))
    }

    /// Hands `value` on as the next argument of the call that follows.
    pub fn build_argument(&mut self, value: Operand)
        requires
            old(self)@.well_formed(),
        ensures
            final(self)@ == old(self)@.emit(Instruction::Argument { value }),
            final(self)@.well_formed(),
            final(self)@.grown_from(old(self)@),
    {
        self.emit(Instruction::Argument { value });
    }

    /// Calls the function `function` of the module.
    pub fn build_invoke(&mut self, function: usize)
        requires
            old(self)@.well_formed(),
        ensures
            final(self)@ == old(self)@.emit(Instruction::Call { function }),
            final(self)@.well_formed(),
            final(self)@.grown_from(old(self)@),
    {
        self.emit(Instruction::Call { function });
    }

    /// Reads the result `index` of the call before.
    pub fn build_result(&mut self, index: usize) -> (value: Operand)
        requires
            old(self)@.well_formed(),
        ensures
            final(self)@ == old(self)@.emit_value(
                Instruction::Result { result: old(self)@.frame.registers, index },
            ),
            final(self)@.well_formed(),
            final(self)@.grown_from(old(self)@),
            value == old(self)@.next_value(),
    {
        self.emit_value(Instruction::Result { result: self.frame.registers, index })
    }

    /// Declares the function `name`: puts it after the functions of the
    /// module, without a body, and brings it into scope.
    pub fn declare_function(&mut self, name: &String, parameters: usize, results: usize)
        requires
            old(self)@.well_formed(),
        ensures
            final(self)@ == old(self)@.declare(name@, parameters as nat, results as nat),
            final(self)@.well_formed(),
            final(self)@.grown_from(old(self)@),
    {
        let ghost functions = self.functions;
        let ghost visible = self.visible;
        let index = self.functions.len();
        let function = Function {
            name: name.clone(),
            parameters,
            results,
            slots: 0,
            registers: 0,
            blocks: Vec::new(),
            code: Vec::new(),
            return_block: 0,
            throw_block: 0,
        };
        let binding = Binding { name: name.clone(), index };
        assert(function@ == FunctionView::declared(name@, parameters, results)) by {
            assert(function@.blocks =~= Seq::empty());
            assert(function@.code =~= Seq::empty());
        }
        self.functions.push(function);
        self.visible.push(binding);
        proof {
            lemma_views_push(functions, self.functions, function);
            lemma_views_push(visible, self.visible, binding);
        }
    }

    /// Brings the variable `name` into scope at `slot`.
    pub fn bind_variable(&mut self, name: &String, slot: usize)
        requires
            old(self)@.well_formed(),
        ensures
            final(self)@ == old(self)@.bind(name@, slot),
            final(self)@.well_formed(),
            final(self)@.grown_from(old(self)@),
    {
        let ghost variables = self.frame.variables;
        let binding = Binding { name: name.clone(), index: slot };
        self.frame.variables.push(binding);
        proof {
            lemma_views_push(variables, self.frame.variables, binding);
        }
    }

    /// Takes out of scope what has been named since there were `variables`
    /// variables and `visible` functions in scope.
    pub fn leave_scope(&mut self, variables: usize, visible: usize)
        requires
            old(self)@.well_formed(),
        ensures
            final(self)@ == old(self)@.restore_scope(variables as nat, visible as nat),
            final(self)@.well_formed(),
            final(self)@.grown_from(old(self)@),
    {
        let ghost before = *self;
        self.frame.variables.truncate(variables);
        self.visible.truncate(visible);
        proof {
            assert(views(self.frame.variables) =~= restore(
                views(before.frame.variables),
                variables as nat,
            ));
            assert(views(self.visible) =~= restore(views(before.visible), visible as nat));
        }
    }

    /// Enters a loop whose `continue` goes to `continue_block` and whose
    /// `break` goes to `break_block`.
    pub fn push_loop(&mut self, continue_block: usize, break_block: usize)
        requires
            old(self)@.well_formed(),
            continue_block < old(self)@.frame.blocks.len(),
            break_block < old(self)@.frame.blocks.len(),
        ensures
            final(self)@ == old(self)@.push_loop(continue_block, break_block),
            final(self)@.well_formed(),
    {
        self.frame.loops.push(LoopFrame { continue_block, break_block });
    }

    /// Leaves the innermost loop.
    pub fn pop_loop(&mut self)
        requires
            old(self)@.well_formed(),
            old(self)@.frame.loops.len() > 0,
        ensures
            final(self)@ == old(self)@.pop_loop(),
            final(self)@.well_formed(),
    {
        self.frame.loops.pop();
    }
}

} // verus!
