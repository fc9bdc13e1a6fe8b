use vstd::prelude::*;

pub mod ast;
pub mod diag;
pub mod grammar;
pub mod lexer;
pub mod parser;
pub mod text;
pub mod typing;
pub mod typeck;
pub mod codegen;
pub mod llvm;
pub mod emit;

verus! {
} // verus!
