//! The result of evaluation: a symbolic numeric term.
//!
//! The evaluator resolves every name, checks every arity and decides every
//! unit conversion, but it does not compute with floating-point numbers.
//! Instead it returns a closed term over validated literal texts, the five
//! arithmetic operators, the two angle conversions and builtin-function
//! applications.  A host folds such a term into a double-precision number.

use vstd::prelude::*;

use crate::ast::TokenKind;
use crate::ast::Unit;

verus! {

/// A closed numeric term, the result of a successful evaluation.
#[derive(Debug)]
pub enum Value {
    /// The neutral value: declarations and unrecognised operators yield zero.
    Zero,
    /// A numeric literal, kept as its (validated) text.
    Literal(String),
    /// One of the five arithmetic operators applied to two sub-terms.
    Binary(Box<Value>, TokenKind, Box<Value>),
    /// A degree value converted into radians.
    ToRadians(Box<Value>),
    /// A radian value converted into degrees.
    ToDegrees(Box<Value>),
    /// A builtin unary function applied under the given angle unit.
    UnaryCall(String, Box<Value>, Unit),
    /// A builtin binary function applied under the given angle unit.
    BinaryCall(String, Box<Value>, Box<Value>, Unit),
}

/// The mathematical mirror of [`Value`].
pub enum SpecValue {
    Zero,
    Literal(Seq<char>),
    Binary(Box<SpecValue>, TokenKind, Box<SpecValue>),
    ToRadians(Box<SpecValue>),
    ToDegrees(Box<SpecValue>),
    UnaryCall(Seq<char>, Box<SpecValue>, Unit),
    BinaryCall(Seq<char>, Box<SpecValue>, Box<SpecValue>, Unit),
}

/// The view of a term: the same tree over `Seq<char>` texts.
pub open spec fn value_view(v: Value) -> SpecValue
    decreases v,
{
    match v {
        Value::Zero => SpecValue::Zero,
        Value::Literal(text) => SpecValue::Literal(text.view()),
        Value::Binary(l, op, r) => SpecValue::Binary(
            Box::new(value_view(*l)),
            op,
            Box::new(value_view(*r)),
        ),
        Value::ToRadians(inner) => SpecValue::ToRadians(Box::new(value_view(*inner))),
        Value::ToDegrees(inner) => SpecValue::ToDegrees(Box::new(value_view(*inner))),
        Value::UnaryCall(name, x, unit) => SpecValue::UnaryCall(
            name.view(),
            Box::new(value_view(*x)),
            unit,
        ),
        Value::BinaryCall(name, x, y, unit) => SpecValue::BinaryCall(
            name.view(),
            Box::new(value_view(*x)),
            Box::new(value_view(*y)),
            unit,
        ),
    }
}

impl View for Value {
    type V = SpecValue;

    open spec fn view(&self) -> SpecValue {
        value_view(*self)
    }
}

} // verus!
