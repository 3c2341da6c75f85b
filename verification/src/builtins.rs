//! The builtin catalog: named constants and the names of the builtin unary
//! and binary functions.
//!
//! The catalog decides name resolution only.  A constant expands to its
//! textual value, which re-enters literal evaluation; a builtin function call
//! becomes a symbolic application carrying the context's angle unit, which
//! the host folds numerically.  Builtin names take precedence over
//! user-defined functions of the same name whenever the arity matches.

use vstd::prelude::*;

verus! {

/// Whether a name denotes a builtin unary function.
pub open spec fn is_unary_builtin(name: Seq<char>) -> bool {
    ||| name == "sin"@
    ||| name == "cos"@
    ||| name == "tan"@
    ||| name == "asin"@
    ||| name == "acos"@
    ||| name == "atan"@
    ||| name == "sinh"@
    ||| name == "cosh"@
    ||| name == "tanh"@
    ||| name == "abs"@
    ||| name == "ceil"@
    ||| name == "floor"@
    ||| name == "round"@
    ||| name == "trunc"@
    ||| name == "sqrt"@
    ||| name == "ln"@
    ||| name == "log"@
    ||| name == "exp"@
}

/// Whether a name denotes a builtin binary function.
pub open spec fn is_binary_builtin(name: Seq<char>) -> bool {
    ||| name == "max"@
    ||| name == "min"@
    ||| name == "hypot"@
    ||| name == "atan2"@
}

/// The textual value of a builtin constant, if the name denotes one.
pub open spec fn constant_text(name: Seq<char>) -> Option<Seq<char>> {
    if name == "pi"@ {
        Some("3.14159265"@)
    } else if name == "e"@ {
        Some("2.71828182845904523536"@)
    } else if name == "tau"@ {
        Some("6.28318530717958647692"@)
    } else if name == "phi"@ {
        Some("1.61803398874989484820"@)
    } else {
        None
    }
}

/// Whether a string equals a literal, by characters.
fn string_is(s: &String, lit: &str) -> (r: bool)
    ensures
        r == (s@ == lit@),
{
    let other: String = lit.to_owned();
    *s == other
}

/// Whether a name denotes a builtin unary function.
pub fn unary_builtin(name: &String) -> (r: bool)
    ensures
        r == is_unary_builtin(name@),
{
    string_is(name, "sin") || string_is(name, "cos") || string_is(name, "tan") || string_is(
        name,
        "asin",
    ) || string_is(name, "acos") || string_is(name, "atan") || string_is(name, "sinh") || string_is(
        name,
        "cosh",
    ) || string_is(name, "tanh") || string_is(name, "abs") || string_is(name, "ceil") || string_is(
        name,
        "floor",
    ) || string_is(name, "round") || string_is(name, "trunc") || string_is(name, "sqrt")
        || string_is(name, "ln") || string_is(name, "log") || string_is(name, "exp")
}

/// Whether a name denotes a builtin binary function.
pub fn binary_builtin(name: &String) -> (r: bool)
    ensures
        r == is_binary_builtin(name@),
{
    string_is(name, "max") || string_is(name, "min") || string_is(name, "hypot") || string_is(
        name,
        "atan2",
    )
}

/// The textual value of a builtin constant, if the name denotes one.
pub fn lookup_constant(name: &String) -> (r: Option<String>)
    ensures
        match r {
            Some(text) => constant_text(name@) == Some(text@),
            None => constant_text(name@) is None,
        },
{
    if string_is(name, "pi") {
        Some("3.14159265".to_owned())
    } else if string_is(name, "e") {
        Some("2.71828182845904523536".to_owned())
    } else if string_is(name, "tau") {
        Some("6.28318530717958647692".to_owned())
    } else if string_is(name, "phi") {
        Some("1.61803398874989484820".to_owned())
    } else {
        None
    }
}

} // verus!
