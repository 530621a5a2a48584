//! Execution core of a small stack-oriented bytecode toolchain: the binary
//! instruction encoding, the nested-scope symbol resolution chain a compiler
//! front end uses at emission time, and the virtual machine that executes the
//! emitted byte stream.

pub mod context;
pub mod instructions;
pub mod vm;
