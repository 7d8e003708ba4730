//! Front end and code generator for a small statically typed scripting
//! language: source text is scanned into tokens, parsed into an abstract
//! syntax tree, and lowered into an instruction-level module that a native
//! backend can emit as an object file.

pub mod codegen;
pub mod expr;
pub mod lexer;
pub mod parser;
pub mod stmt;
pub mod token;
