//! The ways an evaluation can fail.
//!
//! Every error is terminal for the evaluation that raised it: the first
//! failure anywhere in a subtree aborts the whole statement sequence.

use vstd::prelude::*;

verus! {

/// An evaluation error.
#[derive(Debug)]
pub enum EvalError {
    /// Neither a builtin constant nor a stored variable declaration resolves
    /// the identifier.
    UndefinedVariable(String),
    /// Neither a builtin function nor a stored function declaration resolves
    /// the call.
    UndefinedFunction(String),
    /// A user-defined function was called with the wrong number of arguments:
    /// name, declared parameter count, supplied argument count.
    ArgumentCountMismatch(String, usize, usize),
    /// A literal's text does not parse as a number.
    InvalidLiteral(String),
    /// A unit-annotation token does not name a known unit.
    InvalidUnitSuffix,
    /// Evaluation nested deeper than the interpreter's recursion limit.
    RecursionLimitExceeded,
}

/// The mathematical mirror of [`EvalError`].
pub enum SpecError {
    UndefinedVariable(Seq<char>),
    UndefinedFunction(Seq<char>),
    ArgumentCountMismatch(Seq<char>, int, int),
    InvalidLiteral(Seq<char>),
    InvalidUnitSuffix,
    RecursionLimitExceeded,
}

impl View for EvalError {
    type V = SpecError;

    open spec fn view(&self) -> SpecError {
        match self {
            EvalError::UndefinedVariable(name) => SpecError::UndefinedVariable(name.view()),
            EvalError::UndefinedFunction(name) => SpecError::UndefinedFunction(name.view()),
            EvalError::ArgumentCountMismatch(name, expected, actual) => SpecError::ArgumentCountMismatch(
                name.view(),
                *expected as int,
                *actual as int,
            ),
            EvalError::InvalidLiteral(text) => SpecError::InvalidLiteral(text.view()),
            EvalError::InvalidUnitSuffix => SpecError::InvalidUnitSuffix,
            EvalError::RecursionLimitExceeded => SpecError::RecursionLimitExceeded,
        }
    }
}

} // verus!
