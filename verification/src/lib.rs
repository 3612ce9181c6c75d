//! A small statically typed language: its syntax tree, a compiler that
//! flattens the tree into stack-machine code, and the stack machine.
pub mod ast;
pub mod compiler;
pub mod vm;
