//! The module: what the generator makes of a whole source.

use vstd::prelude::*;
use vstd::string::StringExecFns;
use crate::generator::context::Context;
use crate::generator::context::ContextView;
use crate::generator::context::Target;
use crate::generator::error::Error;
use crate::generator::ir::Function;
use crate::generator::ir::FunctionView;
use crate::generator::lowering::lower_statements;
use crate::generator::lowering;
use crate::parser::statement::Statement;
use crate::parser::statement::StatementView;
use crate::parser::views;

verus! {

/// The code of a source: the functions that it defines, each under the
/// number that calls name it by, and the code outside any function.
#[derive(Debug, Clone, PartialEq, Eq)]
pub struct Module {
    /// The functions, in the order in which they were declared.
    pub functions: Vec<Function>,
    /// The code of the source outside any function, as a function without
    /// name, parameters and results.
    pub entry: Function,
}

/// The model of a [`Module`].
pub struct ModuleView {
    pub functions: Seq<FunctionView>,
    pub entry: FunctionView,
}

impl View for Module {
    type V = ModuleView;

    open spec fn view(&self) -> ModuleView {
        ModuleView { functions: views(self.functions), entry: self.entry@ }
    }
}

impl ModuleView {
    /// Whether every function of the module is closed: each of its
    /// instructions stands in one of its blocks and names its blocks only,
    /// and each of its blocks is ended.
    pub open spec fn closed(self) -> bool {
        &&& self.entry.closed()
        &&& forall|i: int|
            0 <= i < self.functions.len() ==> (#[trigger] self.functions[i]).closed()
    }
}

/// The module of a source that holds `statements`, for `target`: the
/// statements are lowered in their order in a context that has not been
/// used, into the code outside any function, which then goes to its return
/// block.
pub open spec fn lower_program(target: Target, statements: Seq<StatementView>) -> Result<
    ModuleView,
    Error,
> {
    match lower_statements(ContextView::start(target), statements, 0) {
        Err(error) => Err(error),
        Ok(done) => {
            let finished = done.branch(done.frame.return_block);
            Ok(
                ModuleView {
                    functions: finished.functions,
                    entry: finished.built(Seq::empty(), 0, 0),
                },
            )
        },
    }
}

/// The number of the function called `name`: that of the last function of
/// that name among `functions`.
pub open spec fn function_named(functions: Seq<FunctionView>, name: Seq<char>) -> Option<usize>
    decreases functions.len(),
{
    if functions.len() == 0 {
        None
    } else if functions.last().name == name {
        Some((functions.len() - 1) as usize)
    } else {
        function_named(functions.drop_last(), name)
    }
}

impl Module {
    /// Generates the module of a source that holds `statements`, for `target`.
    pub fn generate(statements: &Vec<Statement>, target: Target) -> (result: Result<Module, Error>)
        ensures
            match lower_program(target, views(*statements)) {
                Ok(module) => result matches Ok(generated) && generated@ == module,
                Err(error) => result == Err::<Module, Error>(error),
            },
            result matches Ok(generated) ==> generated@.closed(),
    {
        proof {
            reveal(lowering::lower_statements);
        }
        let mut context = Context::new(target);
        let ghost start = context@;
        let mut at: usize = 0;
        while at < statements.len()
            invariant
                at <= statements.len(),
                start.well_formed(),
                context@.well_formed(),
                context@.grown_from(start),
                lower_statements(start, views(*statements), 0) == lower_statements(
                    context@,
                    views(*statements),
                    at as nat,
                ),
                start == ContextView::start(target),
            decreases statements.len() - at,
        {
            proof {
                reveal(lowering::lower_statements);
            }
            let ghost middle = context@;
            match statements[at].lower(&mut context) {
                Ok(()) => {},
                Err(error) => {
                    return Err(error);
                },
            }
            proof {
                context@.lemma_grown_on(middle, start);
            }
            at = at + 1;
        }
        let exit = context.frame.return_block;
        context.build_unconditional_branch(exit);
        proof {
            let begun = ContextView::start(target).frame;
            let ended = context@.frame;
            assert forall|b: int| 0 <= b < ended.blocks.len() implies (
            #[trigger] ended.blocks[b]).terminated by {
                if b < begun.blocks.len() && b != begun.current {
                    assert(begun.blocks[b].terminated);
                }
            }
        }
        let Context { target: _, functions, frame, visible: _ } = context;
        let entry = Function {
            name: String::new(),
            parameters: 0,
            results: 0,
            slots: frame.slots,
            registers: frame.registers,
            blocks: frame.blocks,
            code: frame.code,
            return_block: frame.return_block,
            throw_block: frame.throw_block,
        };
        Ok(Module { functions, entry })
    }

    /// Finds the number of the function called `name`.
    pub fn function_named(&self, name: &str) -> (found: Option<usize>)
        ensures
            found == function_named(self@.functions, name@),
    {
        let mut at: usize = self.functions.len();
        assert(self@.functions.take(at as int) =~= self@.functions);
        while at > 0
            invariant
                at <= self.functions.len(),
                function_named(self@.functions.take(at as int), name@) == function_named(
                    self@.functions,
                    name@,
                ),
            decreases at,
        {
            at = at - 1;
            assert(self@.functions.take(at + 1).drop_last() =~= self@.functions.take(at as int));
            if same_text(&self.functions[at].name, name) {
                return Some(at);
            }
        }
        None
    }
}

/// Tells whether `name` is written as `word`.
pub fn same_text(name: &String, word: &str) -> (same: bool)
    ensures
        same == (name@ == word@),
{
    *name == String::from_str(word)
}

} // verus!
