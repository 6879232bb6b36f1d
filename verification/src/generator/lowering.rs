//! What the generator makes of the syntax tree: for each kind of node, the
//! context after the node has been lowered in a context, or the error that
//! stops the generator.

use vstd::prelude::*;
use crate::generator::builtin::Builtin;
use crate::generator::context::BOOLEAN_BITS;
use crate::generator::context::BindingView;
use crate::generator::context::ContextView;
use crate::generator::context::FrameView;
use crate::generator::context::lookup;
use crate::generator::error::Error;
use crate::generator::ir::FunctionView;
use crate::generator::ir::Instruction;
use crate::generator::ir::IntPredicate;
use crate::generator::ir::Label;
use crate::generator::ir::Operand;
use crate::generator::literal::literal_word;
use crate::parser::identifier::IdentifierView;
use crate::parser::statement::StatementView;
use crate::parser::statement::assignment::AssignmentView;
use crate::parser::statement::block::BlockView;
use crate::parser::statement::expression::ExpressionView;
use crate::parser::statement::expression::function_call::FunctionCallView;
use crate::parser::statement::for_loop::ForLoopView;
use crate::parser::statement::function_definition::FunctionDefinitionView;
use crate::parser::statement::if_conditional::IfConditionalView;
use crate::parser::statement::switch::SwitchView;
use crate::parser::statement::variable_declaration::VariableDeclarationView;
verus! {

/// What lowering yields: the context after it, and what it hands back; or
/// the error that stops the generator.
pub type Lowered<T> = Result<(ContextView, T), Error>;

/// The values that an optional value stands for: one or none.
pub open spec fn optional(value: Option<Operand>) -> Seq<Operand> {
    match value {
        Some(value) => seq![value],
        None => Seq::empty(),
    }
}

/// Whether a generator that found `before` in the context, left `after`
/// there and handed back `result` did what `outcome` asks for: on success
/// the context is the one asked for, it is well formed and has grown from
/// `before`; on failure the error is the one asked for, and the context is
/// left in any state.
pub open spec fn lowers(
    outcome: Result<ContextView, Error>,
    before: ContextView,
    after: ContextView,
    result: Result<(), Error>,
) -> bool {
    match outcome {
        Ok(lowered) => result is Ok && after == lowered && after.well_formed()
            && after.grown_from(before),
        Err(error) => result == Err::<(), Error>(error),
    }
}

/// As [`lowers`], of a generator that hands back values.
pub open spec fn lowers_values(
    outcome: Lowered<Seq<Operand>>,
    before: ContextView,
    after: ContextView,
    result: Result<Vec<Operand>, Error>,
) -> bool {
    match outcome {
        Ok((lowered, values)) => (result matches Ok(found) && found@ == values) && after
            == lowered && after.well_formed() && after.grown_from(before),
        Err(error) => result == Err::<Vec<Operand>, Error>(error),
    }
}

/// As [`lowers`], of a generator that hands back one value.
pub open spec fn lowers_value(
    outcome: Lowered<Operand>,
    before: ContextView,
    after: ContextView,
    result: Result<Operand, Error>,
) -> bool {
    match outcome {
        Ok((lowered, value)) => result == Ok::<Operand, Error>(value) && after == lowered
            && after.well_formed() && after.grown_from(before),
        Err(error) => result == Err::<Operand, Error>(error),
    }
}

/// The first `length` items of `list`, or all of them where there are fewer.
pub open spec fn restore<T>(list: Seq<T>, length: nat) -> Seq<T> {
    if length <= list.len() {
        list.take(length as int)
    } else {
        list
    }
}

impl ContextView {
    /// The context with the function `name` declared: it is put after the
    /// functions of the module, without a body, and comes into scope.
    pub open spec fn declare(self, name: Seq<char>, parameters: nat, results: nat) -> ContextView {
        ContextView {
            functions: self.functions.push(
                FunctionView::declared(name, parameters as usize, results as usize),
            ),
            visible: self.visible.push(
                BindingView { name, index: self.functions.len() as usize },
            ),
            ..self
        }
    }

    /// The context with the variable `name` in scope at `slot`.
    pub open spec fn bind(self, name: Seq<char>, slot: usize) -> ContextView {
        ContextView {
            frame: FrameView {
                variables: self.frame.variables.push(BindingView { name, index: slot }),
                ..self.frame
            },
            ..self
        }
    }

    /// The context with the first `variables` variables and the first
    /// `visible` functions in scope only.
    pub open spec fn restore_scope(self, variables: nat, visible: nat) -> ContextView {
        ContextView {
            frame: FrameView {
                variables: restore(self.frame.variables, variables),
                ..self.frame
            },
            visible: restore(self.visible, visible),
            ..self
        }
    }

    /// The context with the scopes as long as they were in `outer`: what
    /// has been named since is out of scope.
    pub open spec fn leave_scope(self, outer: ContextView) -> ContextView {
        self.restore_scope(outer.frame.variables.len(), outer.visible.len())
    }

    /// The context at the start of a function: the module and the scope of
    /// functions stay, the frame is new.
    pub open spec fn enter_function(self) -> ContextView {
        ContextView { frame: FrameView::start(), ..self }
    }

    /// The function that the frame holds, under `name` and with the given
    /// numbers of parameters and results.
    pub open spec fn built(self, name: Seq<char>, parameters: nat, results: nat) -> FunctionView {
        FunctionView {
            name,
            parameters: parameters as usize,
            results: results as usize,
            slots: self.frame.slots,
            registers: self.frame.registers,
            blocks: self.frame.blocks,
            code: self.frame.code,
            return_block: self.frame.return_block,
            throw_block: self.frame.throw_block,
        }
    }
}

/// The context with the functions that `statements` define, from the
/// statement `from` on, declared in their order.
pub open spec fn declare_functions(
    context: ContextView,
    statements: Seq<StatementView>,
    from: nat,
) -> ContextView
    decreases statements.len() - from,
{
    if from >= statements.len() {
        context
    } else {
        match statements[from as int] {
            StatementView::FunctionDefinition(definition) => declare_functions(
                context.declare(
                    definition.name,
                    definition.arguments.len(),
                    definition.result.len(),
                ),
                statements,
                from + 1,
            ),
            _ => declare_functions(context, statements, from + 1),
        }
    }
}

/// The context with the variables `bindings`, from the binding `from` on,
/// made and brought into scope in their order. Where `values` are given,
/// each variable is set to the value at its place.
pub open spec fn declare_variables(
    context: ContextView,
    bindings: Seq<IdentifierView>,
    values: Option<Seq<Operand>>,
    from: nat,
) -> ContextView
    decreases bindings.len() - from,
{
    if from >= bindings.len() {
        context
    } else {
        let slot = context.frame.slots;
        let made = context.alloca();
        let set = match values {
            Some(values) => made.store(ContextView::variable(slot), values[from as int]),
            None => made,
        };
        declare_variables(set.bind(bindings[from as int].name, slot), bindings, values, from + 1)
    }
}

/// The context with the variables `bindings`, from the binding `from` on,
/// set in their order, each to the value at its place. A variable that is
/// not in scope stops the generator.
pub open spec fn assign_variables(
    context: ContextView,
    bindings: Seq<IdentifierView>,
    values: Seq<Operand>,
    from: nat,
) -> Result<ContextView, Error>
    decreases bindings.len() - from,
{
    if from >= bindings.len() {
        Ok(context)
    } else {
        match lookup(context.frame.variables, bindings[from as int].name) {
            None => Err(Error::UndeclaredVariable),
            Some(slot) => assign_variables(
                context.store(ContextView::variable(slot), values[from as int]),
                bindings,
                values,
                from + 1,
            ),
        }
    }
}

/// The context with `operands`, from the operand `from` on, handed on as
/// the arguments of a call.
pub open spec fn push_arguments(context: ContextView, operands: Seq<Operand>, from: nat) -> ContextView
    decreases operands.len() - from,
{
    if from >= operands.len() {
        context
    } else {
        push_arguments(
            context.emit(Instruction::Argument { value: operands[from as int] }),
            operands,
            from + 1,
        )
    }
}

/// The context with the results of a call read, from the result `from` up
/// to `count`, and the operands that hold them behind `values`.
pub open spec fn read_results(
    context: ContextView,
    count: nat,
    from: nat,
    values: Seq<Operand>,
) -> (ContextView, Seq<Operand>)
    decreases count - from,
{
    if from >= count {
        (context, values)
    } else {
        read_results(
            context.emit_value(
                Instruction::Result { result: context.frame.registers, index: from as usize },
            ),
            count,
            from + 1,
            values.push(context.next_value()),
        )
    }
}

/// The arguments of a call lowered in their order, from the argument
/// `from` on, each to one value, and those values behind `operands`.
#[verifier::opaque]
pub open spec fn lower_arguments(
    context: ContextView,
    arguments: Seq<ExpressionView>,
    from: nat,
    operands: Seq<Operand>,
) -> Lowered<Seq<Operand>>
    decreases arguments, arguments.len() - from,
{
    if from >= arguments.len() {
        Ok((context, operands))
    } else {
        match lower_expression(context, arguments[from as int]) {
            Err(error) => Err(error),
            Ok((next, values)) => if values.len() != 1 {
                Err(Error::ValueCount)
            } else {
                lower_arguments(next, arguments, from + 1, operands.push(values[0]))
            },
        }
    }
}

/// A function call: the arguments are lowered; then, where the language
/// provides the function, its code is generated; else the function must be
/// in scope: the arguments are handed on, the function is called and its
/// results are read. The number of arguments must be the one that the
/// function takes.
#[verifier::opaque]
pub open spec fn lower_call(context: ContextView, call: FunctionCallView) -> Lowered<Seq<Operand>>
    decreases call, 0nat,
{
    match lower_arguments(context, call.arguments, 0, Seq::empty()) {
        Err(error) => Err(error),
        Ok((ready, operands)) => match Builtin::of(call.name) {
            Some(builtin) => if operands.len() != builtin.arity() {
                Err(Error::ArgumentCount)
            } else {
                Ok(builtin.lowered(ready, operands))
            },
            None => match lookup(ready.visible, call.name) {
                None => Err(Error::UndeclaredFunction),
                Some(index) => if index >= ready.functions.len() {
                    Err(Error::UndeclaredFunction)
                } else if operands.len() != ready.functions[index as int].parameters {
                    Err(Error::ArgumentCount)
                } else {
                    Ok(
                        read_results(
                            push_arguments(ready, operands, 0).emit(
                                Instruction::Call { function: index },
                            ),
                            ready.functions[index as int].results as nat,
                            0,
                            Seq::empty(),
                        ),
                    )
                },
            },
        },
    }
}

/// An expression, with the values that it yields: a literal is the word
/// that it stands for; a name is the value loaded from the variable; a call
/// is what the function yields.
#[verifier::opaque]
pub open spec fn lower_expression(context: ContextView, expression: ExpressionView) -> Lowered<
    Seq<Operand>,
>
    decreases expression, 0nat,
{
    match expression {
        ExpressionView::FunctionCall(call) => lower_call(context, call),
        ExpressionView::Identifier(name) => match lookup(context.frame.variables, name) {
            None => Err(Error::UndeclaredVariable),
            Some(slot) => Ok(
                (context.load(ContextView::variable(slot)), seq![context.next_value()]),
            ),
        },
        ExpressionView::Literal(text) => match literal_word(text) {
            None => Err(Error::InvalidLiteral),
            Some(word) => Ok((context, seq![Operand::Constant(word)])),
        },
    }
}

/// An expression that must yield one value, with that value.
pub open spec fn lower_value(context: ContextView, expression: ExpressionView) -> Lowered<Operand> {
    match lower_expression(context, expression) {
        Err(error) => Err(error),
        Ok((next, values)) => if values.len() != 1 {
            Err(Error::ValueCount)
        } else {
            Ok((next, values[0]))
        },
    }
}

/// A variable declaration: the expression, where there is one, must yield
/// as many values as there are variables; the variables are made, set to
/// the values, and brought into scope.
pub open spec fn lower_declaration(
    context: ContextView,
    declaration: VariableDeclarationView,
) -> Result<ContextView, Error> {
    match declaration.expression {
        None => Ok(declare_variables(context, declaration.bindings, None, 0)),
        Some(expression) => match lower_expression(context, expression) {
            Err(error) => Err(error),
            Ok((next, values)) => if values.len() != declaration.bindings.len() {
                Err(Error::ValueCount)
            } else {
                Ok(declare_variables(next, declaration.bindings, Some(values), 0))
            },
        },
    }
}

/// An assignment: the expression must yield as many values as there are
/// variables; the variables, which must be in scope, are set to the values.
pub open spec fn lower_assignment(context: ContextView, assignment: AssignmentView) -> Result<
    ContextView,
    Error,
> {
    match lower_expression(context, assignment.initializer) {
        Err(error) => Err(error),
        Ok((next, values)) => if values.len() != assignment.bindings.len() {
            Err(Error::ValueCount)
        } else {
            assign_variables(next, assignment.bindings, values, 0)
        },
    }
}

/// The statements of a list lowered in their order, from the statement `from` on.
#[verifier::opaque]
pub open spec fn lower_statements(
    context: ContextView,
    statements: Seq<StatementView>,
    from: nat,
) -> Result<ContextView, Error>
    decreases statements, statements.len() - from,
{
    if from >= statements.len() {
        Ok(context)
    } else {
        match lower_statement(context, statements[from as int]) {
            Err(error) => Err(error),
            Ok(next) => lower_statements(next, statements, from + 1),
        }
    }
}

/// The statements of a block: the functions that the block defines are
/// declared, then the statements are lowered in their order. What they
/// name stays in scope.
#[verifier::opaque]
pub open spec fn lower_local(context: ContextView, block: BlockView) -> Result<ContextView, Error>
    decreases block, 0nat,
{
    lower_statements(declare_functions(context, block.statements, 0), block.statements, 0)
}

/// A block: its statements are lowered, and what they name goes out of scope.
#[verifier::opaque]
pub open spec fn lower_block(context: ContextView, block: BlockView) -> Result<ContextView, Error>
    decreases block, 1nat,
{
    match lower_local(context, block) {
        Err(error) => Err(error),
        Ok(done) => Ok(done.leave_scope(context)),
    }
}

/// An if-conditional: the condition is lowered and cut to a boolean; a
/// main block and a join block are made; the current block goes to the
/// main block where the condition holds, else to the join block; the block
/// of the conditional is lowered into the main block, which then goes to
/// the join block, where the generation goes on.
#[verifier::opaque]
pub open spec fn lower_if(context: ContextView, conditional: IfConditionalView) -> Result<
    ContextView,
    Error,
>
    decreases conditional, 0nat,
{
    match lower_value(context, conditional.condition) {
        Err(error) => Err(error),
        Ok((tested, value)) => {
            let cut = tested.next_value();
            let tested = tested.truncate(value, BOOLEAN_BITS);
            let main_block = tested.next_block();
            let tested = tested.append_block(Label::IfMain);
            let join_block = tested.next_block();
            let tested = tested.append_block(Label::IfJoin);
            let main = tested.conditional_branch(cut, main_block, join_block).set_block(
                main_block,
            );
            match lower_block(main, conditional.block) {
                Err(error) => Err(error),
                Ok(done) => Ok(done.branch(join_block).set_block(join_block)),
            }
        },
    }
}

/// The cases of a switch from the case `from` on, where `current_block` is
/// the block that tests that case; with the block that the last test goes
/// on to. For each case a block is made and the block of the case lowered
/// into it, which then goes to the join block; in the block that tests the
/// case the expression of the switch is lowered and compared with the
/// literal of the case; a block for the next test is made, and the test
/// goes to the block of the case where the two are equal, else to the next
/// test.
#[verifier::opaque]
pub open spec fn lower_cases(
    context: ContextView,
    switch: SwitchView,
    from: nat,
    current_block: usize,
    join_block: usize,
) -> Lowered<usize>
    decreases switch, switch.cases.len() - from,
{
    if from >= switch.cases.len() {
        Ok((context, current_block))
    } else {
        let case = switch.cases[from as int];
        let case_block = context.next_block();
        let body = context.append_block(Label::SwitchCaseBranch((from + 1) as usize)).set_block(
            case_block,
        );
        match lower_block(body, case.block) {
            Err(error) => Err(error),
            Ok(done) => match lower_value(
                done.branch(join_block).set_block(current_block),
                switch.expression,
            ) {
                Err(error) => Err(error),
                Ok((tested, scrutinee)) => match literal_word(case.literal) {
                    None => Err(Error::InvalidLiteral),
                    Some(word) => {
                        let comparison = tested.next_value();
                        let tested = tested.compare(
                            IntPredicate::Equal,
                            Operand::Constant(word),
                            scrutinee,
                        );
                        let next_block = tested.next_block();
                        lower_cases(
                            tested.append_block(
                                Label::SwitchCaseConstant((from + 2) as usize),
                            ).conditional_branch(comparison, case_block, next_block),
                            switch,
                            from + 1,
                            next_block,
                            join_block,
                        )
                    },
                },
            },
        }
    }
}

/// A switch. Without cases, the default is lowered as a block; a switch
/// without cases and without default stops the generator. With cases, a
/// join block and the block of the first test are made and the current
/// block goes to the first test; the cases are lowered; into the block
/// behind the last test the default is lowered, where there is one, and
/// that block goes to the join block, where the generation goes on.
#[verifier::opaque]
pub open spec fn lower_switch(context: ContextView, switch: SwitchView) -> Result<
    ContextView,
    Error,
>
    decreases switch, switch.cases.len() + 1,
{
    if switch.cases.len() == 0 {
        match switch.default {
            None => Err(Error::EmptySwitch),
            Some(block) => lower_block(context, block),
        }
    } else {
        let join_block = context.next_block();
        let joined = context.append_block(Label::SwitchJoin);
        let first_block = joined.next_block();
        let started = joined.append_block(Label::SwitchCaseConstant(1)).branch(first_block);
        lower_default(
            lower_cases(started, switch, 0, first_block, join_block),
            switch,
            join_block,
        )
    }
}

/// The end of a switch with cases, behind the cases lowered as `tested`:
/// into the block behind the last test the default is lowered, where there
/// is one, and that block goes to the join block, where the generation
/// goes on.
#[verifier::opaque]
pub open spec fn lower_default(tested: Lowered<usize>, switch: SwitchView, join_block: usize) -> Result<
    ContextView,
    Error,
>
    decreases switch, 0nat,
{
    match tested {
        Err(error) => Err(error),
        Ok((tested, last_block)) => {
            let last = tested.set_block(last_block);
            match switch.default {
                None => Ok(last.branch(join_block).set_block(join_block)),
                Some(block) => match lower_block(last, block) {
                    Err(error) => Err(error),
                    Ok(done) => Ok(done.branch(join_block).set_block(join_block)),
                },
            }
        },
    }
}

/// A for-loop. The statements of the initializer are lowered into the
/// current block. The condition, body, increment and join blocks are made,
/// and the current block goes to the condition. There the condition is
/// lowered and cut to a boolean, and the block goes to the body where it
/// holds, else to the join. In a loop frame whose `continue` goes to the
/// increment and whose `break` goes to the join, the body is lowered into
/// the body block, which then goes to the increment, and the finalizer
/// into the increment block, which then goes back to the condition. The
/// frame is left, the generation goes on in the join block, and what the
/// initializer has named goes out of scope.
#[verifier::opaque]
pub open spec fn lower_for(context: ContextView, for_loop: ForLoopView) -> Result<
    ContextView,
    Error,
>
    decreases for_loop, 0nat,
{
    match lower_local(context, for_loop.initializer) {
        Err(error) => Err(error),
        Ok(initialized) => {
            let condition_block = initialized.next_block();
            let made = initialized.append_block(Label::ForCondition);
            let body_block = made.next_block();
            let made = made.append_block(Label::ForBody);
            let increment_block = made.next_block();
            let made = made.append_block(Label::ForIncrement);
            let join_block = made.next_block();
            let made = made.append_block(Label::ForJoin);
            match lower_value(
                made.branch(condition_block).set_block(condition_block),
                for_loop.condition,
            ) {
                Err(error) => Err(error),
                Ok((tested, value)) => {
                    let cut = tested.next_value();
                    let body = tested.truncate(value, BOOLEAN_BITS).conditional_branch(
                        cut,
                        body_block,
                        join_block,
                    ).push_loop(increment_block, join_block).set_block(body_block);
                    match lower_block(body, for_loop.body) {
                        Err(error) => Err(error),
                        Ok(looped) => match lower_block(
                            looped.branch(increment_block).set_block(increment_block),
                            for_loop.finalizer,
                        ) {
                            Err(error) => Err(error),
                            Ok(finalized) => Ok(
                                finalized.branch(condition_block).pop_loop().set_block(
                                    join_block,
                                ).leave_scope(context),
                            ),
                        },
                    }
                },
            }
        },
    }
}

/// A function definition. The function must be in scope. In a new frame
/// the parameters and then the results are made as variables and brought
/// into scope, the body is lowered, and the block that the body ends in
/// goes to the return block. The function that the frame then holds takes
/// its place in the module, and the generation goes on in the frame that
/// it was in.
#[verifier::opaque]
pub open spec fn lower_function(
    context: ContextView,
    definition: FunctionDefinitionView,
) -> Result<ContextView, Error>
    decreases definition, 0nat,
{
    match lookup(context.visible, definition.name) {
        None => Err(Error::UndeclaredFunction),
        Some(index) => if index >= context.functions.len() {
            Err(Error::UndeclaredFunction)
        } else {
            let entered = declare_variables(
                declare_variables(context.enter_function(), definition.arguments, None, 0),
                definition.result,
                None,
                0,
            );
            match lower_block(entered, definition.body) {
                Err(error) => Err(error),
                Ok(done) => {
                    let finished = done.branch(done.frame.return_block);
                    Ok(
                        ContextView {
                            frame: context.frame,
                            functions: finished.functions.update(
                                index as int,
                                finished.built(
                                    definition.name,
                                    definition.arguments.len(),
                                    definition.result.len(),
                                ),
                            ),
                            ..finished
                        },
                    )
                },
            }
        },
    }
}

/// A statement. `continue` goes to the increment of the innermost loop and
/// `break` to its join; outside any loop each stops the generator. `leave`
/// goes to the return block of the function.
#[verifier::opaque]
pub open spec fn lower_statement(context: ContextView, statement: StatementView) -> Result<
    ContextView,
    Error,
>
    decreases statement, 0nat,
{
    match statement {
        StatementView::Block(block) => lower_block(context, block),
        StatementView::Expression(expression) => match lower_expression(context, expression) {
            Err(error) => Err(error),
            Ok((next, _)) => Ok(next),
        },
        StatementView::FunctionDefinition(definition) => lower_function(context, definition),
        StatementView::VariableDeclaration(declaration) => lower_declaration(
            context,
            declaration,
        ),
        StatementView::Assignment(assignment) => lower_assignment(context, assignment),
        StatementView::IfConditional(conditional) => lower_if(context, conditional),
        StatementView::Switch(switch) => lower_switch(context, switch),
        StatementView::ForLoop(for_loop) => lower_for(context, for_loop),
        StatementView::Continue => if context.frame.loops.len() == 0 {
            Err(Error::ContinueOutsideLoop)
        } else {
            Ok(context.branch(context.frame.loops.last().continue_block))
        },
        StatementView::Break => if context.frame.loops.len() == 0 {
            Err(Error::BreakOutsideLoop)
        } else {
            Ok(context.branch(context.frame.loops.last().break_block))
        },
        StatementView::Leave => Ok(context.branch(context.frame.return_block)),
    }
}

} // verus!
