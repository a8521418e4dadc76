//! Editor services for `.tsr` documents: the builtin table, completion,
//! hover and the document symbol table they share.

pub mod builtins;
pub mod completion;
pub mod definition;
pub mod diagnostics;
pub mod hover;
pub mod types;
pub mod shapes;
pub mod symbols;
