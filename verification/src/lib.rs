//! Code generators behind a family of derive and attribute macros:
//! greeting impls, visibility rewriting, getters, builders (plain and
//! typestate), panic-to-`Result` rewriting, and the request descriptions of
//! an infrastructure-as-code macro.

pub mod person;
pub mod text;
pub mod item;
pub mod syntax;
pub mod tokens;
pub mod error;
pub mod panic_result;
pub mod visibility;
pub mod builder;
pub mod typestate;
pub mod hello;
pub mod compose;
pub mod iac;
pub mod analyze;
