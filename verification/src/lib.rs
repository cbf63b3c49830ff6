//! A tree-walking interpreter for a small dynamically typed scripting
//! language: a scanner, a recursive-descent parser, and an evaluator that
//! runs as a resumable machine.

pub mod environment;
pub mod grammar;
pub mod interpreter;
pub mod machine;
pub mod number;
pub mod parser;
pub mod scanner;
pub mod syntax;
pub mod text;
pub mod token;
pub mod value;
