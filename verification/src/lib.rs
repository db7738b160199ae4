//! The Dang language: a lexer, a Pratt parser, a tree-walking evaluator,
//! and a small bytecode compiler with its virtual machine.
pub mod text;
pub mod intern;
pub mod lex;
pub mod ast;
pub mod eval;
pub mod compiler;
