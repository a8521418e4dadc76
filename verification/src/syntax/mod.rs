//! The `.tsr` front end: tokens, the lexer, the syntax tree and the parser.

pub mod ast;
pub mod lexer;
pub mod parser;
pub mod token;
pub mod view;
