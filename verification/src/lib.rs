//! A verified tree-walking evaluator for a small calculator language.
//!
//! The evaluator consumes an already-parsed statement sequence and reduces it
//! to a symbolic numeric term: a tree of literal texts, arithmetic operators,
//! angle-unit conversions and builtin-function applications.  Everything the
//! evaluator decides — name resolution, builtin precedence, arity checking,
//! argument binding, unit-conversion choices, error reporting — is verified
//! here against a specification-level interpreter.  Folding the resulting
//! term into a double-precision number is floating-point work and is left to
//! the (unverified) host.

pub mod ast;
pub mod builtins;
pub mod errors;
pub mod interpreter;
pub mod laws;
pub mod literal;
pub mod semantics;
pub mod symbols;
pub mod value;
