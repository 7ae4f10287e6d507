//! Lowering of type-checked function bodies into a linear instruction
//! sequence ("Air") for an abstract machine with a growable stack frame and
//! two scratch registers.

pub mod air;
pub mod ast;
pub mod ctx;
pub mod laws;
pub mod lower;
pub mod store;
pub mod strukt;
pub mod ty;
