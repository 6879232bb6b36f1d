//! The code generator: it lowers the syntax tree into basic blocks.

pub mod builtin;
pub mod context;
pub mod dispatch;
pub mod error;
pub mod frames;
pub mod ir;
pub mod literal;
pub mod lowering;
pub mod machine;
pub mod module;
pub mod word;
