//! The specification-level interpreter.
//!
//! These spec functions say, over the mathematical mirrors of the syntax
//! trees, what every evaluation returns and how it changes the environment.
//! The executable evaluator is verified against them clause by clause.
//!
//! Every function returns the pair of an outcome and the environment after
//! the evaluation: an expression can mutate the environment (a function call
//! binds its arguments as variable declarations in the shared store), and a
//! failing evaluation keeps whatever bindings it made before failing.

use vstd::prelude::*;

use crate::ast::SpecExpr;
use crate::ast::SpecStmt;
use crate::ast::TokenKind;
use crate::ast::Unit;
use crate::ast::spec_to_unit;
use crate::builtins::constant_text;
use crate::builtins::is_binary_builtin;
use crate::builtins::is_unary_builtin;
use crate::errors::SpecError;
use crate::literal::is_valid_literal;
use crate::value::SpecValue;

verus! {

/// The environment: declarations keyed by name, functions under an
/// arity-disambiguating key.
pub type Env = Map<Seq<char>, SpecStmt>;

/// The key a function declaration is stored under: the name with `()`
/// appended, so a variable and a function may share a base name.
pub open spec fn fn_key(name: Seq<char>) -> Seq<char> {
    name + "()"@
}

/// The outcome of evaluating a literal: its text if it is a well-formed
/// number, the invalid-literal error otherwise.
pub open spec fn eval_literal(text: Seq<char>) -> Result<SpecValue, SpecError> {
    if is_valid_literal(text) {
        Ok(SpecValue::Literal(text))
    } else {
        Err(SpecError::InvalidLiteral(text))
    }
}

/// Applies a binary operator token: one of the five arithmetic operators
/// builds a term; any other kind defensively yields the neutral value.
pub open spec fn apply_binary(l: SpecValue, op: TokenKind, r: SpecValue) -> SpecValue {
    match op {
        TokenKind::Plus => SpecValue::Binary(Box::new(l), op, Box::new(r)),
        TokenKind::Minus => SpecValue::Binary(Box::new(l), op, Box::new(r)),
        TokenKind::Star => SpecValue::Binary(Box::new(l), op, Box::new(r)),
        TokenKind::Slash => SpecValue::Binary(Box::new(l), op, Box::new(r)),
        TokenKind::Power => SpecValue::Binary(Box::new(l), op, Box::new(r)),
        _ => SpecValue::Zero,
    }
}

/// The conversion term for a value annotated with a unit other than the
/// context's default: a degree value becomes radians, a radian value degrees.
pub open spec fn apply_conversion(v: SpecValue, annotated: Unit) -> SpecValue {
    match annotated {
        Unit::Degrees => SpecValue::ToRadians(Box::new(v)),
        Unit::Radians => SpecValue::ToDegrees(Box::new(v)),
    }
}

/// Binds each parameter name, in order, to its (unevaluated) argument
/// expression as a variable declaration in the shared environment.  A later
/// binding overwrites an earlier one of the same name.
pub open spec fn bind_params(env: Env, params: Seq<Seq<char>>, args: Seq<SpecExpr>) -> Env
    decreases params.len(),
{
    if params.len() == 0 || args.len() == 0 {
        env
    } else {
        bind_params(
            env.insert(params[0], SpecStmt::VarDecl(params[0], args[0])),
            params.skip(1),
            args.skip(1),
        )
    }
}

/// Evaluates one expression under an environment and a default angle unit.
///
/// The fuel bounds the depth of non-structural recursion: each step through a
/// stored declaration body spends one unit, and evaluation fails with the
/// recursion-limit error when none is left.
pub open spec fn eval_expr(env: Env, unit: Unit, e: SpecExpr, fuel: nat) -> (Result<
    SpecValue,
    SpecError,
>, Env)
    decreases fuel, e, 1nat,
{
    match e {
        SpecExpr::Binary(l, op, r) => {
            let (rl, env1) = eval_expr(env, unit, *l, fuel);
            match rl {
                Err(err) => (Err(err), env1),
                Ok(vl) => {
                    let (rr, env2) = eval_expr(env1, unit, *r, fuel);
                    match rr {
                        Err(err) => (Err(err), env2),
                        Ok(vr) => (Ok(apply_binary(vl, op, vr)), env2),
                    }
                },
            }
        },
        SpecExpr::Unary(_, inner) => eval_expr(env, unit, *inner, fuel),
        SpecExpr::Unit(inner, kind) => {
            let (ri, env1) = eval_expr(env, unit, *inner, fuel);
            match spec_to_unit(kind) {
                None => (Err(SpecError::InvalidUnitSuffix), env1),
                Some(annotated) => if annotated == unit {
                    (ri, env1)
                } else {
                    match ri {
                        Err(err) => (Err(err), env1),
                        Ok(v) => (Ok(apply_conversion(v, annotated)), env1),
                    }
                },
            }
        },
        SpecExpr::Var(name) => match constant_text(name) {
            Some(text) => (eval_literal(text), env),
            None => if env.contains_key(name) {
                match env[name] {
                    SpecStmt::VarDecl(_, body) => if fuel == 0 {
                        (Err(SpecError::RecursionLimitExceeded), env)
                    } else {
                        eval_expr(env, unit, body, (fuel - 1) as nat)
                    },
                    _ => (Err(SpecError::UndefinedVariable(name)), env),
                }
            } else {
                (Err(SpecError::UndefinedVariable(name)), env)
            },
        },
        SpecExpr::Literal(text) => (eval_literal(text), env),
        SpecExpr::Group(inner) => eval_expr(env, unit, *inner, fuel),
        SpecExpr::FnCall(name, args) => {
            if args.len() == 1 {
                let (r0, env1) = eval_expr(env, unit, args[0], fuel);
                match r0 {
                    Err(err) => (Err(err), env1),
                    Ok(v0) => if is_unary_builtin(name) {
                        (Ok(SpecValue::UnaryCall(name, Box::new(v0), unit)), env1)
                    } else {
                        eval_user_call(env1, unit, name, args, e, fuel)
                    },
                }
            } else if args.len() == 2 {
                let (r0, env1) = eval_expr(env, unit, args[0], fuel);
                match r0 {
                    Err(err) => (Err(err), env1),
                    Ok(v0) => {
                        let (r1, env2) = eval_expr(env1, unit, args[1], fuel);
                        match r1 {
                            Err(err) => (Err(err), env2),
                            Ok(v1) => if is_binary_builtin(name) {
                                (
                                    Ok(
                                        SpecValue::BinaryCall(
                                            name,
                                            Box::new(v0),
                                            Box::new(v1),
                                            unit,
                                        ),
                                    ),
                                    env2,
                                )
                            } else {
                                eval_user_call(env2, unit, name, args, e, fuel)
                            },
                        }
                    },
                }
            } else {
                eval_user_call(env, unit, name, args, e, fuel)
            }
        },
    }
}

/// Evaluates a call to a user-defined function: looks the name up under its
/// function key, checks the arity, binds the unevaluated arguments and
/// evaluates the body.  The `call` argument is the whole call expression; it
/// only carries the termination measure.
pub open spec fn eval_user_call(
    env: Env,
    unit: Unit,
    name: Seq<char>,
    args: Seq<SpecExpr>,
    call: SpecExpr,
    fuel: nat,
) -> (Result<SpecValue, SpecError>, Env)
    decreases fuel, call, 0nat,
{
    let key = fn_key(name);
    if env.contains_key(key) {
        match env[key] {
            SpecStmt::FnDecl(_, params, body) => if params.len() != args.len() {
                (
                    Err(
                        SpecError::ArgumentCountMismatch(
                            name,
                            params.len() as int,
                            args.len() as int,
                        ),
                    ),
                    env,
                )
            } else {
                let env2 = bind_params(env, params, args);
                if fuel == 0 {
                    (Err(SpecError::RecursionLimitExceeded), env2)
                } else {
                    eval_expr(env2, unit, body, (fuel - 1) as nat)
                }
            },
            _ => (Err(SpecError::UndefinedFunction(name)), env),
        }
    } else {
        (Err(SpecError::UndefinedFunction(name)), env)
    }
}

/// Evaluates one statement: a variable declaration registers itself (not its
/// value) and yields the neutral value; a function declaration is a no-op
/// (the host registers it when it is parsed); an expression statement
/// evaluates its expression.
pub open spec fn eval_stmt(env: Env, unit: Unit, s: SpecStmt, fuel: nat) -> (Result<
    SpecValue,
    SpecError,
>, Env) {
    match s {
        SpecStmt::VarDecl(name, _) => (Ok(SpecValue::Zero), env.insert(name, s)),
        SpecStmt::FnDecl(_, _, _) => (Ok(SpecValue::Zero), env),
        SpecStmt::Expr(e) => eval_expr(env, unit, e, fuel),
    }
}

/// Interprets a statement sequence in order.  The first failure aborts the
/// run; otherwise the value of the last statement is surfaced if and only if
/// that statement is a bare expression.
pub open spec fn interpret(env: Env, unit: Unit, stmts: Seq<SpecStmt>, fuel: nat) -> (Result<
    Option<SpecValue>,
    SpecError,
>, Env)
    decreases stmts.len(),
{
    if stmts.len() == 0 {
        (Ok(None), env)
    } else {
        let (r, env1) = eval_stmt(env, unit, stmts[0], fuel);
        match r {
            Err(err) => (Err(err), env1),
            Ok(v) => if stmts.len() == 1 {
                match stmts[0] {
                    SpecStmt::Expr(_) => (Ok(Some(v)), env1),
                    _ => (Ok(None), env1),
                }
            } else {
                interpret(env1, unit, stmts.skip(1), fuel)
            },
        }
    }
}

} // verus!
