//! Arcis: a TypeScript-like language front end (lexer, parser, type
//! inference, validation) plus the editor services built on it.

pub mod compiler;
pub mod lsp;
pub mod syntax;
pub mod text;
pub mod validation;
