//! The errors of the generator.

use vstd::prelude::*;
verus! {

/// What stops the generator.
#[derive(Debug, Clone, Copy, PartialEq, Eq, Structural)]
pub enum Error {
    /// `break` stands outside any loop.
    BreakOutsideLoop,
    /// `continue` stands outside any loop.
    ContinueOutsideLoop,
    /// A switch has neither a case nor the default.
    EmptySwitch,
    /// A literal is neither `true` nor `false`, nor a string in quotes, nor
    /// digits, nor `0x` and hexadecimal digits.
    InvalidLiteral,
    /// A variable is read or assigned to that is not declared.
    UndeclaredVariable,
    /// A function is called or defined that is not declared.
    UndeclaredFunction,
    /// A function is called with another number of arguments than it takes.
    ArgumentCount,
    /// An expression yields another number of values than are asked of it.
    ValueCount,
}

} // verus!
