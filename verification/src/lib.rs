//! A minimal stack-oriented language: a scanner that turns source bytes into
//! tokens, a single-pass compiler that checks every operation against a
//! compile-time type stack and emits bytecode, and a virtual machine that
//! executes the bytecode against a runtime value stack.

pub mod compiler;
pub mod scanner;
pub mod soundness;
pub mod vm;
