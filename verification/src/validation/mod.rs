//! Semantic passes over the syntax tree: type inference and validation
//! (unused and duplicate declarations, `break` / `continue` outside of a
//! loop).

pub mod duplicate;
pub mod infer;
pub mod issues;
pub mod json;
pub mod jsoncheck;
pub mod loop_ctx;
pub mod narrow;
pub mod nullsafety;
pub mod shadowing;
pub mod typecheck;
pub mod unused;
pub mod validate;
