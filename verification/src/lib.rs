//! A bytecode back end for a small expression language: a compiler that
//! flattens an abstract syntax tree into a linear instruction stream with a
//! constant pool, and a stack virtual machine that executes that stream.
//!
//! The tree of expressions is translated into `Instruction`s appended to a
//! `Chunk`; literals and identifiers are interned once into a program-wide
//! constant pool and referenced by byte-sized index.  The `VM` runs the
//! finished chunk top to bottom with an operand stack, a call stack of return
//! addresses, and a single global variable table.  Function bodies live
//! inline in the shared instruction stream, guarded by a header instruction
//! that straight-line execution skips over.
//!
//! Numeric arithmetic in this core is normalized to checked 64-bit integers
//! (`Value::Int64`); overflow and division by zero are reported as faults
//! rather than wrapping silently.  Every fault is a structured `VMError`
//! value returned through `Result`, never a panic.

pub mod ast;
pub mod chunk;
pub mod compiler;
pub mod errors;
pub mod laws;
pub mod symbols;
pub mod table;
pub mod vm;
pub mod value;
