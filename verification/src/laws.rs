//! Laws of the evaluator, proved once and for all over the
//! specification-level interpreter.
//!
//! Each proof function here states a behavioural guarantee of the evaluator
//! for every environment, angle unit and fuel, not merely for chosen inputs.

use vstd::prelude::*;

use crate::ast::SpecExpr;
use crate::ast::SpecStmt;
use crate::ast::TokenKind;
use crate::ast::Unit;
use crate::ast::spec_to_unit;
use crate::builtins::constant_text;
use crate::builtins::is_binary_builtin;
use crate::builtins::is_unary_builtin;
use crate::errors::SpecError;
use crate::literal::is_valid_literal;
use crate::semantics;
use crate::semantics::Env;
use crate::semantics::bind_params;
use crate::semantics::fn_key;
use crate::value::SpecValue;

verus! {

/// A constant binary arithmetic expression evaluates to exactly the
/// operator applied to its two literal operands, leaving the environment
/// unchanged; the host's fold of that term is the native floating-point
/// operation on the two parsed literals.
pub proof fn lemma_binary_literals(
    env: Env,
    unit: Unit,
    a: Seq<char>,
    op: TokenKind,
    b: Seq<char>,
    fuel: nat,
)
    requires
        is_valid_literal(a),
        is_valid_literal(b),
        op == TokenKind::Plus || op == TokenKind::Minus || op == TokenKind::Star || op
            == TokenKind::Slash || op == TokenKind::Power,
    ensures
        semantics::eval_expr(
            env,
            unit,
            SpecExpr::Binary(
                Box::new(SpecExpr::Literal(a)),
                op,
                Box::new(SpecExpr::Literal(b)),
            ),
            fuel,
        ) == (
            Ok::<SpecValue, SpecError>(
                SpecValue::Binary(
                    Box::new(SpecValue::Literal(a)),
                    op,
                    Box::new(SpecValue::Literal(b)),
                ),
            ),
            env,
        ),
{
    assert(semantics::eval_expr(env, unit, SpecExpr::Literal(a), fuel) == (
        Ok::<SpecValue, SpecError>(SpecValue::Literal(a)),
        env,
    ));
    assert(semantics::eval_expr(env, unit, SpecExpr::Literal(b), fuel) == (
        Ok::<SpecValue, SpecError>(SpecValue::Literal(b)),
        env,
    ));
}

/// Referencing a declared variable evaluates the variable's stored body:
/// the reference costs one unit of fuel and otherwise behaves exactly as
/// evaluating the body in place.
pub proof fn lemma_variable_reference(
    env: Env,
    unit: Unit,
    name: Seq<char>,
    body: SpecExpr,
    fuel: nat,
)
    requires
        constant_text(name) is None,
        env.contains_key(name),
        env[name] == SpecStmt::VarDecl(name, body),
        fuel > 0,
    ensures
        semantics::eval_expr(env, unit, SpecExpr::Var(name), fuel) == semantics::eval_expr(
            env,
            unit,
            body,
            (fuel - 1) as nat,
        ),
{
}

/// Declaring a variable and then referencing it in the next statement
/// surfaces the value of the declared body, evaluated under the extended
/// environment.
pub proof fn lemma_declare_then_reference(
    env: Env,
    unit: Unit,
    name: Seq<char>,
    body: SpecExpr,
    fuel: nat,
)
    requires
        constant_text(name) is None,
        fuel > 0,
    ensures
        ({
            let decl = SpecStmt::VarDecl(name, body);
            let stmts = seq![decl, SpecStmt::Expr(SpecExpr::Var(name))];
            let (br, benv) = semantics::eval_expr(
                env.insert(name, decl),
                unit,
                body,
                (fuel - 1) as nat,
            );
            semantics::interpret(env, unit, stmts, fuel) == (
                match br {
                    Ok(v) => Ok(Some(v)),
                    Err(e) => Err(e),
                },
                benv,
            )
        }),
{
    let decl = SpecStmt::VarDecl(name, body);
    let stmts = seq![decl, SpecStmt::Expr(SpecExpr::Var(name))];
    assert(stmts.skip(1) =~= seq![SpecStmt::Expr(SpecExpr::Var(name))]);
    let env1 = env.insert(name, decl);
    assert(semantics::eval_stmt(env, unit, stmts[0], fuel) == (
        Ok::<SpecValue, SpecError>(SpecValue::Zero),
        env1,
    ));
    lemma_variable_reference(env1, unit, name, body, fuel);
    let (br, benv) = semantics::eval_expr(env1, unit, body, (fuel - 1) as nat);
    assert(stmts.skip(1)[0] == SpecStmt::Expr(SpecExpr::Var(name)));
    assert(semantics::eval_stmt(env1, unit, stmts.skip(1)[0], fuel) == (br, benv));
    assert(semantics::interpret(env1, unit, stmts.skip(1), fuel) == (
        match br {
            Ok(v) => Ok(Some(v)),
            Err(e) => Err(e),
        },
        benv,
    ));
}

/// Calling a user-defined function binds each argument, in order and
/// unevaluated, to the parameter of the same position, and evaluates the
/// body under those bindings.  For one or two arguments this holds when the
/// name is not a builtin of that arity and the argument evaluations succeed
/// without touching the environment (the builtin attempt evaluates them
/// first).
pub proof fn lemma_call_binds_positionally(
    env: Env,
    unit: Unit,
    name: Seq<char>,
    params: Seq<Seq<char>>,
    args: Seq<SpecExpr>,
    body: SpecExpr,
    fuel: nat,
)
    requires
        env.contains_key(fn_key(name)),
        env[fn_key(name)] == SpecStmt::FnDecl(name, params, body),
        params.len() == args.len(),
        fuel > 0,
        args.len() == 1 ==> !is_unary_builtin(name) && semantics::eval_expr(
            env,
            unit,
            args[0],
            fuel,
        ).1 == env && semantics::eval_expr(env, unit, args[0], fuel).0 is Ok,
        args.len() == 2 ==> !is_binary_builtin(name) && semantics::eval_expr(
            env,
            unit,
            args[0],
            fuel,
        ).1 == env && semantics::eval_expr(env, unit, args[0], fuel).0 is Ok
            && semantics::eval_expr(env, unit, args[1], fuel).1 == env && semantics::eval_expr(
            env,
            unit,
            args[1],
            fuel,
        ).0 is Ok,
    ensures
        semantics::eval_expr(env, unit, SpecExpr::FnCall(name, args), fuel)
            == semantics::eval_expr(bind_params(env, params, args), unit, body, (fuel - 1) as nat),
{
    let e = SpecExpr::FnCall(name, args);
    let uc = semantics::eval_user_call(env, unit, name, args, e, fuel);
    assert(uc == semantics::eval_expr(bind_params(env, params, args), unit, body, (fuel - 1) as nat));
}

/// Redeclaring a name overwrites the prior binding with no diagnostic: a
/// run that declares a name twice behaves exactly as one that only makes
/// the second declaration.
pub proof fn lemma_redeclaration_overwrites(
    env: Env,
    unit: Unit,
    name: Seq<char>,
    first: SpecExpr,
    second: SpecExpr,
    rest: Seq<SpecStmt>,
    fuel: nat,
)
    ensures
        semantics::interpret(
            env,
            unit,
            seq![SpecStmt::VarDecl(name, first), SpecStmt::VarDecl(name, second)] + rest,
            fuel,
        ) == semantics::interpret(
            env,
            unit,
            seq![SpecStmt::VarDecl(name, second)] + rest,
            fuel,
        ),
{
    let d1 = SpecStmt::VarDecl(name, first);
    let d2 = SpecStmt::VarDecl(name, second);
    let long = seq![d1, d2] + rest;
    let short = seq![d2] + rest;
    let env_a = env.insert(name, d1);
    let env_b = env.insert(name, d2);
    assert(long[0] == d1);
    assert(short[0] == d2);
    assert(long.skip(1) =~= short);
    assert(env_a.insert(name, d2) =~= env_b);
    assert(semantics::eval_stmt(env, unit, d1, fuel) == (
        Ok::<SpecValue, SpecError>(SpecValue::Zero),
        env_a,
    ));
    assert(semantics::eval_stmt(env_a, unit, d2, fuel) == (
        Ok::<SpecValue, SpecError>(SpecValue::Zero),
        env_b,
    ));
    assert(semantics::eval_stmt(env, unit, d2, fuel) == (
        Ok::<SpecValue, SpecError>(SpecValue::Zero),
        env_b,
    ));
    if rest.len() == 0 {
        assert(short.len() == 1);
        assert(semantics::interpret(env_a, unit, short, fuel) == (
            Ok::<Option<SpecValue>, SpecError>(None),
            env_b,
        ));
        assert(semantics::interpret(env, unit, long, fuel) == (
            Ok::<Option<SpecValue>, SpecError>(None),
            env_b,
        ));
        assert(semantics::interpret(env, unit, short, fuel) == (
            Ok::<Option<SpecValue>, SpecError>(None),
            env_b,
        ));
    } else {
        assert(short.skip(1) =~= rest);
        assert(semantics::interpret(env, unit, long, fuel) == semantics::interpret(
            env_a,
            unit,
            short,
            fuel,
        ));
        assert(semantics::interpret(env_a, unit, short, fuel) == semantics::interpret(
            env_b,
            unit,
            rest,
            fuel,
        ));
        assert(semantics::interpret(env, unit, short, fuel) == semantics::interpret(
            env_b,
            unit,
            rest,
            fuel,
        ));
    }
}

/// A statement sequence whose last statement is a declaration surfaces no
/// value: a successful run returns no result.
pub proof fn lemma_trailing_declaration_yields_none(
    env: Env,
    unit: Unit,
    stmts: Seq<SpecStmt>,
    fuel: nat,
)
    requires
        stmts.len() > 0,
        !(stmts.last() matches SpecStmt::Expr(_)),
    ensures
        ({
            let (r, _) = semantics::interpret(env, unit, stmts, fuel);
            r is Err || r == Ok::<Option<SpecValue>, SpecError>(None)
        }),
    decreases stmts.len(),
{
    if stmts.len() > 1 {
        let (r0, env1) = semantics::eval_stmt(env, unit, stmts[0], fuel);
        if r0 is Ok {
            assert(stmts.skip(1).last() == stmts.last());
            lemma_trailing_declaration_yields_none(env1, unit, stmts.skip(1), fuel);
        }
    }
}

/// Referencing a name that neither the constant catalog nor the environment
/// resolves fails with the undefined-variable error and leaves the
/// environment unchanged.
pub proof fn lemma_undefined_variable(env: Env, unit: Unit, name: Seq<char>, fuel: nat)
    requires
        constant_text(name) is None,
        !env.contains_key(name),
    ensures
        semantics::eval_expr(env, unit, SpecExpr::Var(name), fuel) == (
            Err::<SpecValue, SpecError>(SpecError::UndefinedVariable(name)),
            env,
        ),
{
}

/// Calling a name that neither the builtin catalog nor the environment
/// resolves fails with the undefined-function error.  For one or two
/// arguments this holds when the name is not a builtin of that arity and
/// the argument evaluations succeed without touching the environment (the
/// builtin attempt evaluates them first).
pub proof fn lemma_undefined_function(
    env: Env,
    unit: Unit,
    name: Seq<char>,
    args: Seq<SpecExpr>,
    fuel: nat,
)
    requires
        !env.contains_key(fn_key(name)),
        args.len() == 1 ==> !is_unary_builtin(name) && semantics::eval_expr(
            env,
            unit,
            args[0],
            fuel,
        ).1 == env && semantics::eval_expr(env, unit, args[0], fuel).0 is Ok,
        args.len() == 2 ==> !is_binary_builtin(name) && semantics::eval_expr(
            env,
            unit,
            args[0],
            fuel,
        ).1 == env && semantics::eval_expr(env, unit, args[0], fuel).0 is Ok
            && semantics::eval_expr(env, unit, args[1], fuel).1 == env && semantics::eval_expr(
            env,
            unit,
            args[1],
            fuel,
        ).0 is Ok,
    ensures
        semantics::eval_expr(env, unit, SpecExpr::FnCall(name, args), fuel) == (
            Err::<SpecValue, SpecError>(SpecError::UndefinedFunction(name)),
            env,
        ),
{
    let e = SpecExpr::FnCall(name, args);
    let uc = semantics::eval_user_call(env, unit, name, args, e, fuel);
    assert(uc.1 == env);
}

/// Calling a user-defined function with the wrong number of arguments fails
/// with the argument-count error naming the declared and the supplied
/// counts.  For one or two arguments this holds when the name is not a
/// builtin of that arity and the argument evaluations succeed without
/// touching the environment.
pub proof fn lemma_argument_count_mismatch(
    env: Env,
    unit: Unit,
    name: Seq<char>,
    params: Seq<Seq<char>>,
    args: Seq<SpecExpr>,
    body: SpecExpr,
    fuel: nat,
)
    requires
        env.contains_key(fn_key(name)),
        env[fn_key(name)] == SpecStmt::FnDecl(name, params, body),
        params.len() != args.len(),
        args.len() == 1 ==> !is_unary_builtin(name) && semantics::eval_expr(
            env,
            unit,
            args[0],
            fuel,
        ).1 == env && semantics::eval_expr(env, unit, args[0], fuel).0 is Ok,
        args.len() == 2 ==> !is_binary_builtin(name) && semantics::eval_expr(
            env,
            unit,
            args[0],
            fuel,
        ).1 == env && semantics::eval_expr(env, unit, args[0], fuel).0 is Ok
            && semantics::eval_expr(env, unit, args[1], fuel).1 == env && semantics::eval_expr(
            env,
            unit,
            args[1],
            fuel,
        ).0 is Ok,
    ensures
        semantics::eval_expr(env, unit, SpecExpr::FnCall(name, args), fuel) == (
            Err::<SpecValue, SpecError>(
                SpecError::ArgumentCountMismatch(name, params.len() as int, args.len() as int),
            ),
            env,
        ),
{
    let e = SpecExpr::FnCall(name, args);
    let uc = semantics::eval_user_call(env, unit, name, args, e, fuel);
    assert(uc.1 == env);
}

/// A unit annotation that names the context's default angle unit is a
/// no-op: the annotated expression evaluates exactly as the bare one.
pub proof fn lemma_matching_unit_annotation_is_noop(
    env: Env,
    unit: Unit,
    inner: SpecExpr,
    kind: TokenKind,
    fuel: nat,
)
    requires
        spec_to_unit(kind) == Some(unit),
    ensures
        semantics::eval_expr(env, unit, SpecExpr::Unit(Box::new(inner), kind), fuel)
            == semantics::eval_expr(env, unit, inner, fuel),
{
}

/// A unit annotation that names the other angle unit wraps the inner value
/// in the conversion into the default: an annotation in degrees under a
/// radian default converts degrees to radians, and the other way around.
pub proof fn lemma_differing_unit_annotation_converts(
    env: Env,
    unit: Unit,
    annotated: Unit,
    inner: SpecExpr,
    kind: TokenKind,
    fuel: nat,
)
    requires
        spec_to_unit(kind) == Some(annotated),
        annotated != unit,
    ensures
        ({
            let (ri, env1) = semantics::eval_expr(env, unit, inner, fuel);
            semantics::eval_expr(env, unit, SpecExpr::Unit(Box::new(inner), kind), fuel) == (
                match ri {
                    Ok(v) => Ok(semantics::apply_conversion(v, annotated)),
                    Err(e) => Err(e),
                },
                env1,
            )
        }),
{
}

/// A builtin unary function name takes precedence over a user-defined
/// function of the same name: whatever the environment holds under the
/// call's key, the call applies the builtin to its evaluated argument.
pub proof fn lemma_builtin_precedence_unary(
    env: Env,
    unit: Unit,
    name: Seq<char>,
    arg: SpecExpr,
    fuel: nat,
)
    requires
        is_unary_builtin(name),
    ensures
        ({
            let (r0, env1) = semantics::eval_expr(env, unit, arg, fuel);
            semantics::eval_expr(env, unit, SpecExpr::FnCall(name, seq![arg]), fuel) == (
                match r0 {
                    Ok(v) => Ok(SpecValue::UnaryCall(name, Box::new(v), unit)),
                    Err(e) => Err(e),
                },
                env1,
            )
        }),
{
    assert(seq![arg][0] == arg);
}

/// A builtin binary function name takes precedence over a user-defined
/// function of the same name: whatever the environment holds under the
/// call's key, the call applies the builtin to its two evaluated arguments.
pub proof fn lemma_builtin_precedence_binary(
    env: Env,
    unit: Unit,
    name: Seq<char>,
    arg0: SpecExpr,
    arg1: SpecExpr,
    fuel: nat,
)
    requires
        is_binary_builtin(name),
    ensures
        ({
            let (r0, env1) = semantics::eval_expr(env, unit, arg0, fuel);
            let (r1, env2) = semantics::eval_expr(env1, unit, arg1, fuel);
            semantics::eval_expr(env, unit, SpecExpr::FnCall(name, seq![arg0, arg1]), fuel) == (
                match (r0, r1) {
                    (Ok(v0), Ok(v1)) => Ok(
                        SpecValue::BinaryCall(name, Box::new(v0), Box::new(v1), unit),
                    ),
                    (Err(e), _) => Err(e),
                    (Ok(v0), Err(e)) => Err(e),
                },
                if r0 is Err {
                    env1
                } else {
                    env2
                },
            )
        }),
{
    assert(seq![arg0, arg1][0] == arg0);
    assert(seq![arg0, arg1][1] == arg1);
}

} // verus!
