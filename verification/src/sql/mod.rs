//! SQL representations: the syntax tree, the low-level string form, the conversion
//! between them, and execution plans.
pub mod ast;
pub mod convert;
pub mod execution_plan;
pub mod helpers;
pub mod numbering;
pub mod sameness;
pub mod string;
