//! The loop frames are a stack that lowering leaves as it found it: what a
//! node of the syntax tree has been lowered to has the loops and the exits
//! of the function that the lowering started with. So the statements of a
//! block, the block of an if-conditional and the blocks of the cases of a
//! switch are lowered under the frames of what holds them, and the body of
//! a for-loop under those frames and the frame of the loop: a `continue`
//! or `break` that stands in the body and in no loop within it goes to the
//! increment or the join block of that loop.

use vstd::prelude::*;
use crate::generator::builtin::Builtin;
use crate::generator::context::ContextView;
use crate::generator::ir::LoopFrame;
use crate::generator::ir::Operand;
use crate::generator::lowering::Lowered;
use crate::generator::lowering::assign_variables;
use crate::generator::lowering::declare_functions;
use crate::generator::lowering::declare_variables;
use crate::generator::lowering::lower_arguments;
use crate::generator::lowering::lower_assignment;
use crate::generator::lowering::lower_block;
use crate::generator::lowering::lower_call;
use crate::generator::lowering::lower_cases;
use crate::generator::lowering::lower_declaration;
use crate::generator::lowering::lower_default;
use crate::generator::lowering::lower_expression;
use crate::generator::lowering::lower_for;
use crate::generator::lowering::lower_function;
use crate::generator::lowering::lower_if;
use crate::generator::lowering::lower_local;
use crate::generator::lowering::lower_statement;
use crate::generator::lowering::lower_statements;
use crate::generator::lowering::lower_switch;
use crate::generator::lowering::lower_value;
use crate::generator::lowering::push_arguments;
use crate::generator::lowering::read_results;
use crate::generator::error::Error;
use crate::parser::identifier::IdentifierView;
use crate::parser::statement::StatementView;
use crate::parser::statement::assignment::AssignmentView;
use crate::parser::statement::block::BlockView;
use crate::parser::statement::expression::ExpressionView;
use crate::parser::statement::expression::function_call::FunctionCallView;
use crate::parser::statement::for_loop::ForLoopView;
use crate::parser::statement::function_definition::FunctionDefinitionView;
use crate::parser::statement::if_conditional::IfConditionalView;
use crate::parser::statement::switch::SwitchView;
use crate::parser::statement::variable_declaration::VariableDeclarationView;

verus! {

/// Whether `after` has the loop frames and the exits of the function that
/// `before` has.
pub open spec fn same_frames(after: ContextView, before: ContextView) -> bool {
    &&& after.frame.loops == before.frame.loops
    &&& after.frame.return_block == before.frame.return_block
    &&& after.frame.throw_block == before.frame.throw_block
}

/// Whether what was lowered has the loop frames and the exits of `before`.
pub open spec fn keeps(outcome: Result<ContextView, Error>, before: ContextView) -> bool {
    outcome matches Ok(after) ==> same_frames(after, before)
}

/// As [`keeps`], of a lowering that hands back something.
pub open spec fn keeps_with<T>(outcome: Lowered<T>, before: ContextView) -> bool {
    outcome matches Ok((after, _)) ==> same_frames(after, before)
}

/// Declaring functions keeps the frames.
pub proof fn lemma_declare_functions_keeps(
    context: ContextView,
    statements: Seq<StatementView>,
    from: nat,
)
    ensures
        same_frames(declare_functions(context, statements, from), context),
    decreases statements.len() - from,
{
    if from < statements.len() {
        match statements[from as int] {
            StatementView::FunctionDefinition(definition) => {
                lemma_declare_functions_keeps(
                    context.declare(
                        definition.name,
                        definition.arguments.len(),
                        definition.result.len(),
                    ),
                    statements,
                    from + 1,
                );
            },
            _ => {
                lemma_declare_functions_keeps(context, statements, from + 1);
            },
        }
    }
}

/// Declaring variables keeps the frames.
pub proof fn lemma_declare_variables_keeps(
    context: ContextView,
    bindings: Seq<IdentifierView>,
    values: Option<Seq<Operand>>,
    from: nat,
)
    ensures
        same_frames(declare_variables(context, bindings, values, from), context),
    decreases bindings.len() - from,
{
    if from < bindings.len() {
        let slot = context.frame.slots;
        let made = context.alloca();
        let set = match values {
            Some(values) => made.store(ContextView::variable(slot), values[from as int]),
            None => made,
        };
        lemma_declare_variables_keeps(
            set.bind(bindings[from as int].name, slot),
            bindings,
            values,
            from + 1,
        );
    }
}

/// Assigning to variables keeps the frames.
pub proof fn lemma_assign_variables_keeps(
    context: ContextView,
    bindings: Seq<IdentifierView>,
    values: Seq<Operand>,
    from: nat,
)
    ensures
        keeps(assign_variables(context, bindings, values, from), context),
    decreases bindings.len() - from,
{
    if from < bindings.len() {
        match crate::generator::context::lookup(
            context.frame.variables,
            bindings[from as int].name,
        ) {
            Some(slot) => {
                lemma_assign_variables_keeps(
                    context.store(ContextView::variable(slot), values[from as int]),
                    bindings,
                    values,
                    from + 1,
                );
            },
            None => {},
        }
    }
}

/// Handing arguments on keeps the frames.
pub proof fn lemma_push_arguments_keeps(context: ContextView, operands: Seq<Operand>, from: nat)
    ensures
        same_frames(push_arguments(context, operands, from), context),
    decreases operands.len() - from,
{
    if from < operands.len() {
        lemma_push_arguments_keeps(
            context.emit(
                crate::generator::ir::Instruction::Argument { value: operands[from as int] },
            ),
            operands,
            from + 1,
        );
    }
}

/// Reading results keeps the frames.
pub proof fn lemma_read_results_keeps(
    context: ContextView,
    count: nat,
    from: nat,
    values: Seq<Operand>,
)
    ensures
        same_frames(read_results(context, count, from, values).0, context),
    decreases count - from,
{
    if from < count {
        lemma_read_results_keeps(
            context.emit_value(
                crate::generator::ir::Instruction::Result {
                    result: context.frame.registers,
                    index: from as usize,
                },
            ),
            count,
            from + 1,
            values.push(context.next_value()),
        );
    }
}

/// The code of a function that the language provides keeps the frames.
pub proof fn lemma_builtin_keeps(builtin: Builtin, context: ContextView, arguments: Seq<Operand>)
    ensures
        same_frames(builtin.lowered(context, arguments).0, context),
{
}

/// Lowering arguments keeps the frames.
pub proof fn lemma_arguments_keeps(
    context: ContextView,
    arguments: Seq<ExpressionView>,
    from: nat,
    operands: Seq<Operand>,
)
    ensures
        keeps_with(lower_arguments(context, arguments, from, operands), context),
    decreases arguments, arguments.len() - from,
{
    reveal(lower_arguments);
    reveal(lower_expression);
    if from < arguments.len() {
        lemma_expression_keeps(context, arguments[from as int]);
        match lower_expression(context, arguments[from as int]) {
            Ok((next, values)) => {
                if values.len() == 1 {
                    lemma_arguments_keeps(next, arguments, from + 1, operands.push(values[0]));
                }
            },
            Err(_) => {},
        }
    }
}

/// Lowering a call keeps the frames.
pub proof fn lemma_call_keeps(context: ContextView, call: FunctionCallView)
    ensures
        keeps_with(lower_call(context, call), context),
    decreases call, 0nat,
{
    reveal(lower_call);
    reveal(lower_arguments);
    lemma_arguments_keeps(context, call.arguments, 0, Seq::empty());
    match lower_arguments(context, call.arguments, 0, Seq::empty()) {
        Ok((ready, operands)) => {
            match Builtin::of(call.name) {
                Some(builtin) => {
                    lemma_builtin_keeps(builtin, ready, operands);
                },
                None => match crate::generator::context::lookup(ready.visible, call.name) {
                    Some(index) => {
                        if index < ready.functions.len() {
                            lemma_push_arguments_keeps(ready, operands, 0);
                            lemma_read_results_keeps(
                                push_arguments(ready, operands, 0).emit(
                                    crate::generator::ir::Instruction::Call { function: index },
                                ),
                                ready.functions[index as int].results as nat,
                                0,
                                Seq::empty(),
                            );
                        }
                    },
                    None => {},
                },
            }
        },
        Err(_) => {},
    }
}

/// Lowering an expression keeps the frames.
pub proof fn lemma_expression_keeps(context: ContextView, expression: ExpressionView)
    ensures
        keeps_with(lower_expression(context, expression), context),
    decreases expression, 0nat,
{
    reveal(lower_expression);
    reveal(lower_call);
    match expression {
        ExpressionView::FunctionCall(call) => {
            lemma_call_keeps(context, call);
        },
        _ => {},
    }
}

/// Lowering an expression to one value keeps the frames.
pub proof fn lemma_value_keeps(context: ContextView, expression: ExpressionView)
    ensures
        keeps_with(lower_value(context, expression), context),
    decreases expression, 1nat,
{
    lemma_expression_keeps(context, expression);
}

/// Lowering a variable declaration keeps the frames.
pub proof fn lemma_declaration_keeps(context: ContextView, declaration: VariableDeclarationView)
    ensures
        keeps(lower_declaration(context, declaration), context),
    decreases declaration, 0nat,
{
    match declaration.expression {
        None => {
            lemma_declare_variables_keeps(context, declaration.bindings, None, 0);
        },
        Some(expression) => {
            lemma_expression_keeps(context, expression);
            match lower_expression(context, expression) {
                Ok((next, values)) => {
                    lemma_declare_variables_keeps(next, declaration.bindings, Some(values), 0);
                },
                Err(_) => {},
            }
        },
    }
}

/// Lowering an assignment keeps the frames.
pub proof fn lemma_assignment_keeps(context: ContextView, assignment: AssignmentView)
    ensures
        keeps(lower_assignment(context, assignment), context),
    decreases assignment, 0nat,
{
    lemma_expression_keeps(context, assignment.initializer);
    match lower_expression(context, assignment.initializer) {
        Ok((next, values)) => {
            lemma_assign_variables_keeps(next, assignment.bindings, values, 0);
        },
        Err(_) => {},
    }
}

/// Lowering statements in their order keeps the frames.
pub proof fn lemma_statements_keeps(
    context: ContextView,
    statements: Seq<StatementView>,
    from: nat,
)
    ensures
        keeps(lower_statements(context, statements, from), context),
    decreases statements, statements.len() - from,
{
    reveal(lower_statements);
    reveal(lower_statement);
    if from < statements.len() {
        lemma_statement_keeps(context, statements[from as int]);
        match lower_statement(context, statements[from as int]) {
            Ok(next) => {
                lemma_statements_keeps(next, statements, from + 1);
            },
            Err(_) => {},
        }
    }
}

/// Lowering the statements of a block keeps the frames.
pub proof fn lemma_local_keeps(context: ContextView, block: BlockView)
    ensures
        keeps(lower_local(context, block), context),
    decreases block, 0nat,
{
    reveal(lower_local);
    reveal(lower_statements);
    lemma_declare_functions_keeps(context, block.statements, 0);
    lemma_statements_keeps(
        declare_functions(context, block.statements, 0),
        block.statements,
        0,
    );
}

/// Lowering a block keeps the frames.
pub proof fn lemma_block_keeps(context: ContextView, block: BlockView)
    ensures
        keeps(lower_block(context, block), context),
    decreases block, 1nat,
{
    reveal(lower_block);
    reveal(lower_local);
    lemma_local_keeps(context, block);
}

/// Lowering an if-conditional keeps the frames.
pub proof fn lemma_if_keeps(context: ContextView, conditional: IfConditionalView)
    ensures
        keeps(lower_if(context, conditional), context),
    decreases conditional, 0nat,
{
    reveal(lower_if);
    reveal(lower_block);
    lemma_value_keeps(context, conditional.condition);
    match lower_value(context, conditional.condition) {
        Ok((tested, value)) => {
            let cut = tested.next_value();
            let tested = tested.truncate(value, crate::generator::context::BOOLEAN_BITS);
            let main_block = tested.next_block();
            let tested = tested.append_block(crate::generator::ir::Label::IfMain);
            let join_block = tested.next_block();
            let tested = tested.append_block(crate::generator::ir::Label::IfJoin);
            let main = tested.conditional_branch(cut, main_block, join_block).set_block(
                main_block,
            );
            lemma_block_keeps(main, conditional.block);
        },
        Err(_) => {},
    }
}

/// Lowering the cases of a switch keeps the frames.
pub proof fn lemma_cases_keeps(
    context: ContextView,
    switch: SwitchView,
    from: nat,
    current_block: usize,
    join_block: usize,
)
    ensures
        keeps_with(lower_cases(context, switch, from, current_block, join_block), context),
    decreases switch, switch.cases.len() - from,
{
    reveal(lower_cases);
    reveal(lower_block);
    if from < switch.cases.len() {
        let case = switch.cases[from as int];
        let case_block = context.next_block();
        let body = context.append_block(
            crate::generator::ir::Label::SwitchCaseBranch((from + 1) as usize),
        ).set_block(case_block);
        lemma_block_keeps(body, case.block);
        match lower_block(body, case.block) {
            Ok(done) => {
                let entered = done.branch(join_block).set_block(current_block);
                lemma_value_keeps(entered, switch.expression);
                match lower_value(entered, switch.expression) {
                    Ok((tested, scrutinee)) => {
                        match crate::generator::literal::literal_word(case.literal) {
                            Some(word) => {
                                let comparison = tested.next_value();
                                let tested = tested.compare(
                                    crate::generator::ir::IntPredicate::Equal,
                                    Operand::Constant(word),
                                    scrutinee,
                                );
                                let next_block = tested.next_block();
                                lemma_cases_keeps(
                                    tested.append_block(
                                        crate::generator::ir::Label::SwitchCaseConstant(
                                            (from + 2) as usize,
                                        ),
                                    ).conditional_branch(comparison, case_block, next_block),
                                    switch,
                                    from + 1,
                                    next_block,
                                    join_block,
                                );
                            },
                            None => {},
                        }
                    },
                    Err(_) => {},
                }
            },
            Err(_) => {},
        }
    }
}

/// Lowering the default of a switch keeps the frames of the cases.
pub proof fn lemma_default_keeps(
    tested: Lowered<usize>,
    switch: SwitchView,
    join_block: usize,
    before: ContextView,
)
    requires
        keeps_with(tested, before),
    ensures
        keeps(lower_default(tested, switch, join_block), before),
    decreases switch, 0nat,
{
    reveal(lower_default);
    reveal(lower_block);
    match tested {
        Ok((tested, last_block)) => {
            match switch.default {
                Some(block) => {
                    lemma_block_keeps(tested.set_block(last_block), block);
                },
                None => {},
            }
        },
        Err(_) => {},
    }
}

/// Lowering a switch keeps the frames.
pub proof fn lemma_switch_keeps(context: ContextView, switch: SwitchView)
    ensures
        keeps(lower_switch(context, switch), context),
    decreases switch, switch.cases.len() + 1,
{
    reveal(lower_switch);
    reveal(lower_block);
    reveal(lower_cases);
    reveal(lower_default);
    if switch.cases.len() == 0 {
        match switch.default {
            Some(block) => {
                lemma_block_keeps(context, block);
            },
            None => {},
        }
    } else {
        let join_block = context.next_block();
        let joined = context.append_block(crate::generator::ir::Label::SwitchJoin);
        let first_block = joined.next_block();
        let started = joined.append_block(
            crate::generator::ir::Label::SwitchCaseConstant(1),
        ).branch(first_block);
        lemma_cases_keeps(started, switch, 0, first_block, join_block);
        lemma_default_keeps(
            lower_cases(started, switch, 0, first_block, join_block),
            switch,
            join_block,
            context,
        );
    }
}

/// The context in which the body of a for-loop is lowered, where the
/// lowering gets that far: behind the initializer and the condition, in
/// the body block, with the frame of the loop on the stack.
pub open spec fn for_body_entry(context: ContextView, for_loop: ForLoopView) -> Option<
    ContextView,
> {
    match lower_local(context, for_loop.initializer) {
        Err(_) => None,
        Ok(initialized) => {
            let condition_block = initialized.next_block();
            let made = initialized.append_block(crate::generator::ir::Label::ForCondition);
            let body_block = made.next_block();
            let made = made.append_block(crate::generator::ir::Label::ForBody);
            let increment_block = made.next_block();
            let made = made.append_block(crate::generator::ir::Label::ForIncrement);
            let join_block = made.next_block();
            let made = made.append_block(crate::generator::ir::Label::ForJoin);
            match lower_value(
                made.branch(condition_block).set_block(condition_block),
                for_loop.condition,
            ) {
                Err(_) => None,
                Ok((tested, value)) => Some(
                    tested.truncate(
                        value,
                        crate::generator::context::BOOLEAN_BITS,
                    ).conditional_branch(tested.next_value(), body_block, join_block).push_loop(
                        increment_block,
                        join_block,
                    ).set_block(body_block),
                ),
            }
        },
    }
}

/// The block that the finalizer of a for-loop is lowered into.
pub open spec fn for_increment_block(context: ContextView, for_loop: ForLoopView) -> usize {
    match lower_local(context, for_loop.initializer) {
        Err(_) => 0,
        Ok(initialized) => (initialized.frame.blocks.len() + 2) as usize,
    }
}

/// The block that the generation goes on in behind a for-loop.
pub open spec fn for_join_block(context: ContextView, for_loop: ForLoopView) -> usize {
    match lower_local(context, for_loop.initializer) {
        Err(_) => 0,
        Ok(initialized) => (initialized.frame.blocks.len() + 3) as usize,
    }
}

/// The body of a for-loop is lowered under the frame of the loop: the
/// innermost frame sends `continue` to the increment block and `break` to
/// the join block, and the frames below it are those around the loop. The
/// loop is lowered to what the body and then the finalizer are lowered to
/// from there, and where that succeeds the frames are as before the loop.
pub proof fn lemma_for_frames(context: ContextView, for_loop: ForLoopView)
    ensures
        lower_for(context, for_loop) is Ok ==> for_body_entry(context, for_loop) is Some,
        for_body_entry(context, for_loop) matches Some(entry) ==> {
            &&& entry.frame.loops == context.frame.loops.push(
                LoopFrame {
                    continue_block: for_increment_block(context, for_loop),
                    break_block: for_join_block(context, for_loop),
                },
            )
            &&& entry.frame.return_block == context.frame.return_block
            &&& lower_for(context, for_loop) is Ok ==> lower_block(entry, for_loop.body) is Ok
        },
        keeps(lower_for(context, for_loop), context),
{
    reveal(lower_for);
    reveal(lower_local);
    reveal(lower_block);
    lemma_local_keeps(context, for_loop.initializer);
    match lower_local(context, for_loop.initializer) {
        Ok(initialized) => {
            let condition_block = initialized.next_block();
            let made = initialized.append_block(crate::generator::ir::Label::ForCondition);
            let body_block = made.next_block();
            let made = made.append_block(crate::generator::ir::Label::ForBody);
            let increment_block = made.next_block();
            let made = made.append_block(crate::generator::ir::Label::ForIncrement);
            let join_block = made.next_block();
            let made = made.append_block(crate::generator::ir::Label::ForJoin);
            let entered = made.branch(condition_block).set_block(condition_block);
            lemma_value_keeps(entered, for_loop.condition);
            match lower_value(entered, for_loop.condition) {
                Ok((tested, value)) => {
                    let cut = tested.next_value();
                    let body = tested.truncate(
                        value,
                        crate::generator::context::BOOLEAN_BITS,
                    ).conditional_branch(cut, body_block, join_block).push_loop(
                        increment_block,
                        join_block,
                    ).set_block(body_block);
                    lemma_block_keeps(body, for_loop.body);
                    match lower_block(body, for_loop.body) {
                        Ok(looped) => {
                            let finalizing = looped.branch(increment_block).set_block(
                                increment_block,
                            );
                            lemma_block_keeps(finalizing, for_loop.finalizer);
                            match lower_block(finalizing, for_loop.finalizer) {
                                Ok(finalized) => {
                                    assert(finalized.frame.loops.drop_last()
                                        =~= context.frame.loops);
                                },
                                Err(_) => {},
                            }
                        },
                        Err(_) => {},
                    }
                },
                Err(_) => {},
            }
        },
        Err(_) => {},
    }
}

/// Lowering a for-loop keeps the frames.
pub proof fn lemma_for_keeps(context: ContextView, for_loop: ForLoopView)
    ensures
        keeps(lower_for(context, for_loop), context),
    decreases for_loop, 1nat,
{
    reveal(lower_for);
    reveal(lower_local);
    reveal(lower_block);
    lemma_local_keeps(context, for_loop.initializer);
    match lower_local(context, for_loop.initializer) {
        Ok(initialized) => {
            let condition_block = initialized.next_block();
            let made = initialized.append_block(crate::generator::ir::Label::ForCondition);
            let body_block = made.next_block();
            let made = made.append_block(crate::generator::ir::Label::ForBody);
            let increment_block = made.next_block();
            let made = made.append_block(crate::generator::ir::Label::ForIncrement);
            let join_block = made.next_block();
            let made = made.append_block(crate::generator::ir::Label::ForJoin);
            let entered = made.branch(condition_block).set_block(condition_block);
            lemma_value_keeps(entered, for_loop.condition);
            match lower_value(entered, for_loop.condition) {
                Ok((tested, value)) => {
                    let cut = tested.next_value();
                    let body = tested.truncate(
                        value,
                        crate::generator::context::BOOLEAN_BITS,
                    ).conditional_branch(cut, body_block, join_block).push_loop(
                        increment_block,
                        join_block,
                    ).set_block(body_block);
                    lemma_block_keeps(body, for_loop.body);
                    match lower_block(body, for_loop.body) {
                        Ok(looped) => {
                            let finalizing = looped.branch(increment_block).set_block(
                                increment_block,
                            );
                            lemma_block_keeps(finalizing, for_loop.finalizer);
                            match lower_block(finalizing, for_loop.finalizer) {
                                Ok(finalized) => {
                                    assert(finalized.frame.loops.drop_last()
                                        =~= context.frame.loops);
                                },
                                Err(_) => {},
                            }
                        },
                        Err(_) => {},
                    }
                },
                Err(_) => {},
            }
        },
        Err(_) => {},
    }
}

/// Lowering a function definition keeps the frames.
pub proof fn lemma_function_keeps(context: ContextView, definition: FunctionDefinitionView)
    ensures
        keeps(lower_function(context, definition), context),
{
    reveal(lower_function);
}

/// Lowering a statement keeps the frames: the loop stack and the exits of
/// the function are behind it what they were before it.
pub proof fn lemma_statement_keeps(context: ContextView, statement: StatementView)
    ensures
        keeps(lower_statement(context, statement), context),
    decreases statement, 0nat,
{
    reveal(lower_statement);
    reveal(lower_block);
    reveal(lower_expression);
    reveal(lower_function);
    reveal(lower_if);
    reveal(lower_switch);
    reveal(lower_for);
    match statement {
        StatementView::Block(block) => {
            lemma_block_keeps(context, block);
        },
        StatementView::Expression(expression) => {
            lemma_expression_keeps(context, expression);
        },
        StatementView::FunctionDefinition(definition) => {
            lemma_function_keeps(context, definition);
        },
        StatementView::VariableDeclaration(declaration) => {
            lemma_declaration_keeps(context, declaration);
        },
        StatementView::Assignment(assignment) => {
            lemma_assignment_keeps(context, assignment);
        },
        StatementView::IfConditional(conditional) => {
            lemma_if_keeps(context, conditional);
        },
        StatementView::Switch(switch) => {
            lemma_switch_keeps(context, switch);
        },
        StatementView::ForLoop(for_loop) => {
            lemma_for_keeps(context, for_loop);
        },
        _ => {},
    }
}

/// The context in which the statement `index` of a list is lowered, where
/// the lowering of the list from the statement `from` on gets that far.
pub open spec fn statement_entry(
    context: ContextView,
    statements: Seq<StatementView>,
    from: nat,
    index: nat,
) -> Option<ContextView>
    decreases statements.len() - from,
{
    if from >= statements.len() || index < from {
        None
    } else if from == index {
        Some(context)
    } else {
        match lower_statement(context, statements[from as int]) {
            Err(_) => None,
            Ok(next) => statement_entry(next, statements, from + 1, index),
        }
    }
}

/// Every statement of a list is lowered under the frames that the lowering
/// of the list started with.
pub proof fn lemma_statement_entry(
    context: ContextView,
    statements: Seq<StatementView>,
    from: nat,
    index: nat,
)
    ensures
        statement_entry(context, statements, from, index) matches Some(entry) ==> same_frames(
            entry,
            context,
        ),
        lower_statements(context, statements, from) is Ok && from <= index < statements.len()
            ==> statement_entry(context, statements, from, index) is Some,
    decreases statements.len() - from,
{
    reveal(lower_statements);
    reveal(lower_statement);
    if from < statements.len() && from < index {
        lemma_statement_keeps(context, statements[from as int]);
        match lower_statement(context, statements[from as int]) {
            Ok(next) => {
                lemma_statement_entry(next, statements, from + 1, index);
            },
            Err(_) => {},
        }
    }
}

/// The context in which the statement `index` of a block is lowered.
pub open spec fn block_entry(context: ContextView, block: BlockView, index: nat) -> Option<
    ContextView,
> {
    statement_entry(
        declare_functions(context, block.statements, 0),
        block.statements,
        0,
        index,
    )
}

/// Every statement of a block is lowered under the frames that the
/// lowering of the block started with.
pub proof fn lemma_block_entry(context: ContextView, block: BlockView, index: nat)
    ensures
        block_entry(context, block, index) matches Some(entry) ==> same_frames(entry, context),
        lower_block(context, block) is Ok && index < block.statements.len() ==> block_entry(
            context,
            block,
            index,
        ) is Some,
{
    reveal(lower_block);
    reveal(lower_local);
    reveal(lower_statements);
    lemma_declare_functions_keeps(context, block.statements, 0);
    lemma_statement_entry(
        declare_functions(context, block.statements, 0),
        block.statements,
        0,
        index,
    );
}

/// The context in which the block of an if-conditional is lowered, where
/// the lowering gets that far.
pub open spec fn if_entry(context: ContextView, conditional: IfConditionalView) -> Option<
    ContextView,
> {
    match lower_value(context, conditional.condition) {
        Err(_) => None,
        Ok((tested, value)) => {
            let cut = tested.next_value();
            let tested = tested.truncate(value, crate::generator::context::BOOLEAN_BITS);
            let main_block = tested.next_block();
            let tested = tested.append_block(crate::generator::ir::Label::IfMain);
            let join_block = tested.next_block();
            let tested = tested.append_block(crate::generator::ir::Label::IfJoin);
            Some(tested.conditional_branch(cut, main_block, join_block).set_block(main_block))
        },
    }
}

/// The block of an if-conditional is lowered under the frames that the
/// lowering of the conditional started with.
pub proof fn lemma_if_entry(context: ContextView, conditional: IfConditionalView)
    ensures
        if_entry(context, conditional) matches Some(entry) ==> same_frames(entry, context),
        lower_if(context, conditional) is Ok ==> (if_entry(context, conditional) matches Some(
            entry,
        ) && lower_block(entry, conditional.block) is Ok),
{
    reveal(lower_if);
    reveal(lower_block);
    lemma_value_keeps(context, conditional.condition);
}

/// The context in which the block of the case `index` of a switch is
/// lowered, where the lowering of the cases from the case `from` on gets
/// that far.
pub open spec fn case_entry(
    context: ContextView,
    switch: SwitchView,
    from: nat,
    current_block: usize,
    join_block: usize,
    index: nat,
) -> Option<ContextView>
    decreases switch.cases.len() - from,
{
    if from >= switch.cases.len() || index < from {
        None
    } else {
        let body = context.append_block(
            crate::generator::ir::Label::SwitchCaseBranch((from + 1) as usize),
        ).set_block(context.next_block());
        if from == index {
            Some(body)
        } else {
            match lower_cases(context, switch, from, current_block, join_block) {
                Err(_) => None,
                Ok(_) => match lower_block(body, switch.cases[from as int].block) {
                    Err(_) => None,
                    Ok(done) => match lower_value(
                        done.branch(join_block).set_block(current_block),
                        switch.expression,
                    ) {
                        Err(_) => None,
                        Ok((tested, scrutinee)) => match crate::generator::literal::literal_word(
                            switch.cases[from as int].literal,
                        ) {
                            None => None,
                            Some(word) => {
                                let comparison = tested.next_value();
                                let tested = tested.compare(
                                    crate::generator::ir::IntPredicate::Equal,
                                    Operand::Constant(word),
                                    scrutinee,
                                );
                                let next_block = tested.next_block();
                                case_entry(
                                    tested.append_block(
                                        crate::generator::ir::Label::SwitchCaseConstant(
                                            (from + 2) as usize,
                                        ),
                                    ).conditional_branch(
                                        comparison,
                                        context.next_block(),
                                        next_block,
                                    ),
                                    switch,
                                    from + 1,
                                    next_block,
                                    join_block,
                                    index,
                                )
                            },
                        },
                    },
                },
            }
        }
    }
}

/// The block of every case of a switch is lowered under the frames that
/// the lowering of the cases started with.
pub proof fn lemma_case_entry(
    context: ContextView,
    switch: SwitchView,
    from: nat,
    current_block: usize,
    join_block: usize,
    index: nat,
)
    ensures
        case_entry(context, switch, from, current_block, join_block, index) matches Some(entry)
            ==> same_frames(entry, context),
        lower_cases(context, switch, from, current_block, join_block) is Ok && from <= index
            < switch.cases.len() ==> case_entry(
            context,
            switch,
            from,
            current_block,
            join_block,
            index,
        ) is Some,
    decreases switch.cases.len() - from,
{
    reveal(lower_cases);
    reveal(lower_block);
    if from < switch.cases.len() && from < index {
        let body = context.append_block(
            crate::generator::ir::Label::SwitchCaseBranch((from + 1) as usize),
        ).set_block(context.next_block());
        lemma_block_keeps(body, switch.cases[from as int].block);
        match lower_block(body, switch.cases[from as int].block) {
            Ok(done) => {
                let entered = done.branch(join_block).set_block(current_block);
                lemma_value_keeps(entered, switch.expression);
                match lower_value(entered, switch.expression) {
                    Ok((tested, scrutinee)) => {
                        match crate::generator::literal::literal_word(
                            switch.cases[from as int].literal,
                        ) {
                            Some(word) => {
                                let comparison = tested.next_value();
                                let tested = tested.compare(
                                    crate::generator::ir::IntPredicate::Equal,
                                    Operand::Constant(word),
                                    scrutinee,
                                );
                                let next_block = tested.next_block();
                                lemma_case_entry(
                                    tested.append_block(
                                        crate::generator::ir::Label::SwitchCaseConstant(
                                            (from + 2) as usize,
                                        ),
                                    ).conditional_branch(
                                        comparison,
                                        context.next_block(),
                                        next_block,
                                    ),
                                    switch,
                                    from + 1,
                                    next_block,
                                    join_block,
                                    index,
                                );
                            },
                            None => {},
                        }
                    },
                    Err(_) => {},
                }
            },
            Err(_) => {},
        }
    }
}

/// `continue` goes to the increment block of the innermost loop and `break`
/// to its join block, whatever loops are around that one; outside any loop
/// each stops the generator. `leave` goes to the return block of the
/// function. None of them goes anywhere else.
pub proof fn lemma_jumps(context: ContextView)
    ensures
        context.frame.loops.len() > 0 ==> lower_statement(context, StatementView::Continue)
            == Ok::<ContextView, Error>(
            context.branch(context.frame.loops.last().continue_block),
        ),
        context.frame.loops.len() > 0 ==> lower_statement(context, StatementView::Break)
            == Ok::<ContextView, Error>(context.branch(context.frame.loops.last().break_block)),
        context.frame.loops.len() == 0 ==> lower_statement(context, StatementView::Continue)
            == Err::<ContextView, Error>(Error::ContinueOutsideLoop),
        context.frame.loops.len() == 0 ==> lower_statement(context, StatementView::Break)
            == Err::<ContextView, Error>(Error::BreakOutsideLoop),
        lower_statement(context, StatementView::Leave) == Ok::<ContextView, Error>(
            context.branch(context.frame.return_block),
        ),
{
    reveal(lower_statement);
}

/// In the body of a for-loop, `continue` goes to the increment block of
/// that loop, where the finalizer stands, and `break` to its join block:
/// any context with the frames of the body sends them there. The
/// statements of the body are lowered in such contexts, and so are the
/// statements of the blocks, if-conditionals and cases within them, as
/// [`lemma_block_entry`], [`lemma_if_entry`] and [`lemma_case_entry`] say.
pub proof fn lemma_for_jumps(context: ContextView, for_loop: ForLoopView, inner: ContextView)
    requires
        for_body_entry(context, for_loop) matches Some(entry) && same_frames(inner, entry),
    ensures
        lower_statement(inner, StatementView::Continue) == Ok::<ContextView, Error>(
            inner.branch(for_increment_block(context, for_loop)),
        ),
        lower_statement(inner, StatementView::Break) == Ok::<ContextView, Error>(
            inner.branch(for_join_block(context, for_loop)),
        ),
{
    lemma_for_frames(context, for_loop);
    lemma_jumps(inner);
}

/// A statement of the body of a for-loop is lowered in a context with the
/// frames of the body.
pub proof fn lemma_for_body_statement(context: ContextView, for_loop: ForLoopView, index: nat)
    requires
        lower_for(context, for_loop) is Ok,
        index < for_loop.body.statements.len(),
    ensures
        for_body_entry(context, for_loop) matches Some(entry) && (block_entry(
            entry,
            for_loop.body,
            index,
        ) matches Some(inner) && same_frames(inner, entry)),
{
    lemma_for_frames(context, for_loop);
    lemma_block_entry(for_body_entry(context, for_loop)->0, for_loop.body, index);
}

} // verus!
