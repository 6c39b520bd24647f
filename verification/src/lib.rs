//! Front end of a compiler for a small imperative language: lexical
//! scanning, recursive-descent parsing, and static type checking.
//!
//! The pipeline turns raw source text into a position-annotated,
//! well-typed abstract syntax tree together with a symbol table and an
//! expression-type table for a downstream code generator.

pub mod ast;
pub mod error;
pub mod parser;
pub mod pos;
pub mod scanner;
pub mod token;
pub mod typecheck;
pub mod types;
