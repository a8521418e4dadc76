//! The `.tsr` to Rust compiler: the program it translates, the Rust text
//! it writes for types, expressions and statements, the module graph's
//! names, and the build layout it chooses.

pub mod ast;
pub mod codegen;
pub mod collect;
pub mod driver;
pub mod emit;
pub mod loader;
pub mod lower;
pub mod modules;
pub mod types;
pub mod validation;
