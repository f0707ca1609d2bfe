//! The Protorun language front end: syntax tree, errors, lexer, parser and symbol tables.
pub mod ast;
pub mod chars;
pub mod error;
pub mod lexer;
pub mod symbol;
pub mod parser;
pub mod printer;
