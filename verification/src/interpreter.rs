//! The executable evaluator, verified against the specification-level
//! interpreter in [`crate::semantics`].
//!
//! A [`Context`] bundles the environment store with the configured default
//! angle unit and is threaded by exclusive reference through every
//! evaluation, so that declarations made while one statement runs are seen
//! by the statements and nested calls that follow.

use vstd::prelude::*;
use vstd::string::StringExecFns;

use crate::ast::clone_expr;
use crate::ast::clone_stmt;
use crate::ast::exprs_view;
use crate::ast::lemma_exprs_view;
use crate::ast::Expr;
use crate::ast::SpecExpr;
use crate::ast::SpecStmt;
use crate::ast::Stmt;
use crate::ast::TokenKind;
use crate::ast::Unit;
use crate::builtins;
use crate::errors::EvalError;
use crate::errors::SpecError;
use crate::literal::check_literal;
use crate::semantics;
use crate::symbols::SymbolTable;
use crate::value::SpecValue;
use crate::value::Value;

verus! {

/// How many nested declaration lookups one evaluation may make before it
/// fails with the recursion-limit error.
pub const RECURSION_LIMIT: u64 = 255;

/// Whether an executable evaluation outcome denotes a specification outcome.
pub open spec fn value_result_matches(
    r: Result<Value, EvalError>,
    sr: Result<SpecValue, SpecError>,
) -> bool {
    match (r, sr) {
        (Ok(v), Ok(sv)) => v@ == sv,
        (Err(e), Err(se)) => e@ == se,
        _ => false,
    }
}

/// The evaluation context: the environment store and the default angle unit.
pub struct Context {
    symbol_table: SymbolTable,
    angle_unit: Unit,
}

/// The key a user-defined function is registered under, distinct from any
/// plain variable name.
pub fn function_key(name: &String) -> (k: String)
    ensures
        k@ == semantics::fn_key(name@),
{
    name.clone().concat("()")
}

impl Context {
    /// The environment this context currently holds.
    pub closed spec fn env(&self) -> semantics::Env {
        self.symbol_table@
    }

    /// The default angle unit this context was configured with.
    pub closed spec fn unit(&self) -> Unit {
        self.angle_unit
    }

    /// A context over a caller-built environment store.  Function
    /// declarations the host has already parsed belong in the store, keyed
    /// by [`function_key`], before interpretation starts.
    pub fn new(angle_unit: Unit, symbol_table: SymbolTable) -> (r: Context)
        ensures
            r.env() == symbol_table@,
            r.unit() == angle_unit,
    {
        Context { angle_unit, symbol_table }
    }

    /// Returns the environment store, ending the session.
    pub fn into_symbol_table(self) -> (r: SymbolTable)
        ensures
            r@ == self.env(),
    {
        self.symbol_table
    }

    /// Interprets a statement sequence in order under this context.
    ///
    /// The value of the last statement is surfaced if and only if that
    /// statement is a bare expression; the first failure aborts the run with
    /// its error, keeping the environment changes made up to that point.
    pub fn interpret(&mut self, statements: Vec<Stmt>) -> (r: Result<Option<Value>, EvalError>)
        ensures
            ({
                let (sr, senv) = semantics::interpret(
                    old(self).env(),
                    old(self).unit(),
                    statements.deep_view(),
                    RECURSION_LIMIT as nat,
                );
                &&& final(self).env() == senv
                &&& final(self).unit() == old(self).unit()
                &&& match (r, sr) {
                    (Ok(None), Ok(None)) => true,
                    (Ok(Some(v)), Ok(Some(sv))) => v@ == sv,
                    (Err(e), Err(se)) => e@ == se,
                    _ => false,
                }
            }),
    {
        let ghost env0 = self.env();
        let ghost unit0 = self.unit();
        let ghost svs = statements.deep_view();
        let n = statements.len();
        let mut i: usize = 0;
        proof {
            assert(svs.skip(0) =~= svs);
        }
        while i < n
            invariant
                i <= n,
                n == statements.len(),
                svs == statements.deep_view(),
                env0 == old(self).env(),
                unit0 == old(self).unit(),
                self.unit() == unit0,
                semantics::interpret(env0, unit0, svs, RECURSION_LIMIT as nat)
                    == semantics::interpret(
                    self.env(),
                    unit0,
                    svs.skip(i as int),
                    RECURSION_LIMIT as nat,
                ),
            decreases n - i,
        {
            let stmt = &statements[i];
            let ghost env_pre = self.env();
            proof {
                assert(stmt@ == svs[i as int]);
                assert(svs.skip(i as int)[0] == svs[i as int]);
                assert(svs.skip(i as int).skip(1) =~= svs.skip(i as int + 1));
                assert(svs.skip(i as int).len() == n - i);
            }
            let value = eval_stmt(self, stmt, RECURSION_LIMIT);
            proof {
                let st = semantics::eval_stmt(env_pre, unit0, svs[i as int], RECURSION_LIMIT as nat);
                let ii = semantics::interpret(
                    env_pre,
                    unit0,
                    svs.skip(i as int),
                    RECURSION_LIMIT as nat,
                );
                assert(st.1 == self.env());
            }
            match value {
                Err(e) => {
                    return Err(e);
                },
                Ok(v) => {
                    if i == n - 1 {
                        if let Stmt::Expr(_) = stmt {
                            return Ok(Some(v));
                        }
                    }
                },
            }
            i += 1;
        }
        Ok(None)
    }
}

/// Evaluates one statement: declarations register themselves, a bare
/// expression is evaluated for its value.
fn eval_stmt(context: &mut Context, stmt: &Stmt, fuel: u64) -> (r: Result<Value, EvalError>)
    ensures
        ({
            let (sr, senv) = semantics::eval_stmt(
                old(context).env(),
                old(context).unit(),
                stmt@,
                fuel as nat,
            );
            &&& final(context).env() == senv
            &&& final(context).unit() == old(context).unit()
            &&& value_result_matches(r, sr)
        }),
{
    match stmt {
        Stmt::VarDecl(identifier, _) => eval_var_decl_stmt(context, stmt, identifier),
        Stmt::FnDecl(_, _, _) => eval_fn_decl_stmt(context),
        Stmt::Expr(expr) => eval_expr_stmt(context, expr, fuel),
    }
}

/// Registers a variable declaration (not its value) under its name and
/// yields the neutral value.
fn eval_var_decl_stmt(context: &mut Context, stmt: &Stmt, identifier: &String) -> (r: Result<
    Value,
    EvalError,
>)
    requires
        stmt@ matches SpecStmt::VarDecl(n, _) && n == identifier@,
    ensures
        final(context).env() == old(context).env().insert(identifier@, stmt@),
        final(context).unit() == old(context).unit(),
        r matches Ok(v) && v@ == SpecValue::Zero,
{
    context.symbol_table.insert(identifier, clone_stmt(stmt));
    Ok(Value::Zero)
}

/// A function declaration needs no action at evaluation time: the host
/// registers it when it is parsed, so re-evaluating it is a no-op.
fn eval_fn_decl_stmt(context: &mut Context) -> (r: Result<Value, EvalError>)
    ensures
        final(context).env() == old(context).env(),
        final(context).unit() == old(context).unit(),
        r matches Ok(v) && v@ == SpecValue::Zero,
{
    Ok(Value::Zero)
}

/// Evaluates a bare expression statement.
fn eval_expr_stmt(context: &mut Context, expr: &Expr, fuel: u64) -> (r: Result<Value, EvalError>)
    ensures
        ({
            let (sr, senv) = semantics::eval_expr(
                old(context).env(),
                old(context).unit(),
                expr@,
                fuel as nat,
            );
            &&& final(context).env() == senv
            &&& final(context).unit() == old(context).unit()
            &&& value_result_matches(r, sr)
        }),
{
    eval_expr(context, expr, fuel)
}

/// Evaluates one expression, recursing depth-first and left to right.
fn eval_expr(context: &mut Context, expr: &Expr, fuel: u64) -> (r: Result<Value, EvalError>)
    ensures
        ({
            let (sr, senv) = semantics::eval_expr(
                old(context).env(),
                old(context).unit(),
                expr@,
                fuel as nat,
            );
            &&& final(context).env() == senv
            &&& final(context).unit() == old(context).unit()
            &&& value_result_matches(r, sr)
        }),
    decreases fuel, expr, 3nat,
{
    match expr {
        Expr::Binary(left, op, right) => eval_binary_expr(
            context,
            left,
            *op,
            right,
            fuel,
            Ghost(*expr),
        ),
        Expr::Unary(_, inner) => eval_unary_expr(context, inner, fuel, Ghost(*expr)),
        Expr::Unit(inner, kind) => eval_unit_expr(context, inner, *kind, fuel, Ghost(*expr)),
        Expr::Var(identifier) => eval_var_expr(context, identifier, fuel, Ghost(*expr)),
        Expr::Literal(value) => eval_literal_expr(context, value),
        Expr::Group(inner) => eval_group_expr(context, inner, fuel, Ghost(*expr)),
        Expr::FnCall(identifier, expressions) => eval_fn_call_expr(
            context,
            identifier,
            expressions,
            fuel,
            Ghost(*expr),
        ),
    }
}

/// Evaluates the left operand, then the right, then applies the operator;
/// an operator outside the arithmetic set yields the neutral value.
fn eval_binary_expr(
    context: &mut Context,
    left: &Expr,
    op: TokenKind,
    right: &Expr,
    fuel: u64,
    whole: Ghost<Expr>,
) -> (r: Result<Value, EvalError>)
    requires
        decreases_to!(whole@ => *left),
        decreases_to!(whole@ => *right),
    ensures
        ({
            let (sr, senv) = semantics::eval_expr(
                old(context).env(),
                old(context).unit(),
                SpecExpr::Binary(Box::new(left@), op, Box::new(right@)),
                fuel as nat,
            );
            &&& final(context).env() == senv
            &&& final(context).unit() == old(context).unit()
            &&& value_result_matches(r, sr)
        }),
    decreases fuel, whole@, 2nat,
{
    let lv = match eval_expr(context, left, fuel) {
        Ok(v) => v,
        Err(e) => {
            return Err(e);
        },
    };
    let rv = match eval_expr(context, right, fuel) {
        Ok(v) => v,
        Err(e) => {
            return Err(e);
        },
    };
    Ok(
        match op {
            TokenKind::Plus => Value::Binary(Box::new(lv), op, Box::new(rv)),
            TokenKind::Minus => Value::Binary(Box::new(lv), op, Box::new(rv)),
            TokenKind::Star => Value::Binary(Box::new(lv), op, Box::new(rv)),
            TokenKind::Slash => Value::Binary(Box::new(lv), op, Box::new(rv)),
            TokenKind::Power => Value::Binary(Box::new(lv), op, Box::new(rv)),
            _ => Value::Zero,
        },
    )
}

/// Evaluates and returns the operand unchanged: negation is resolved at the
/// grammar level, so a unary node forwards its operand's value.
fn eval_unary_expr(context: &mut Context, inner: &Expr, fuel: u64, whole: Ghost<Expr>) -> (r:
    Result<Value, EvalError>)
    requires
        decreases_to!(whole@ => *inner),
    ensures
        ({
            let (sr, senv) = semantics::eval_expr(
                old(context).env(),
                old(context).unit(),
                inner@,
                fuel as nat,
            );
            &&& final(context).env() == senv
            &&& final(context).unit() == old(context).unit()
            &&& value_result_matches(r, sr)
        }),
    decreases fuel, whole@, 2nat,
{
    eval_expr(context, inner, fuel)
}

/// Evaluates a unit-annotated expression.  The annotation says the value is
/// written in that unit; when it differs from the context's default the
/// value is converted into the default, otherwise it passes unchanged.
fn eval_unit_expr(
    context: &mut Context,
    inner: &Expr,
    kind: TokenKind,
    fuel: u64,
    whole: Ghost<Expr>,
) -> (r: Result<Value, EvalError>)
    requires
        decreases_to!(whole@ => *inner),
    ensures
        ({
            let (sr, senv) = semantics::eval_expr(
                old(context).env(),
                old(context).unit(),
                SpecExpr::Unit(Box::new(inner@), kind),
                fuel as nat,
            );
            &&& final(context).env() == senv
            &&& final(context).unit() == old(context).unit()
            &&& value_result_matches(r, sr)
        }),
    decreases fuel, whole@, 2nat,
{
    let x = eval_expr(context, inner, fuel);
    let unit = match kind.to_unit() {
        Ok(u) => u,
        Err(e) => {
            return Err(e);
        },
    };
    // no conversion when the annotation already names the default unit
    if unit == context.angle_unit {
        return x;
    }
    match x {
        Ok(v) => Ok(
            match unit {
                Unit::Degrees => Value::ToRadians(Box::new(v)),
                Unit::Radians => Value::ToDegrees(Box::new(v)),
            },
        ),
        Err(e) => Err(e),
    }
}

/// Resolves an identifier: a builtin constant expands to its textual value
/// and re-enters literal evaluation; otherwise a stored variable
/// declaration's body is evaluated; anything else is undefined.
fn eval_var_expr(context: &mut Context, identifier: &String, fuel: u64, whole: Ghost<Expr>) -> (r:
    Result<Value, EvalError>)
    ensures
        ({
            let (sr, senv) = semantics::eval_expr(
                old(context).env(),
                old(context).unit(),
                SpecExpr::Var(identifier@),
                fuel as nat,
            );
            &&& final(context).env() == senv
            &&& final(context).unit() == old(context).unit()
            &&& value_result_matches(r, sr)
        }),
    decreases fuel, whole@, 2nat,
{
    // a constant with this name expands to a literal with its value
    match builtins::lookup_constant(identifier) {
        Some(text) => eval_literal_expr(context, &text),
        None => {
            let var_decl = context.symbol_table.get(identifier);
            match var_decl {
                Some(s) => match s {
                    Stmt::VarDecl(_, body) => {
                        if fuel == 0 {
                            Err(EvalError::RecursionLimitExceeded)
                        } else {
                            eval_expr(context, &body, fuel - 1)
                        }
                    },
                    _ => Err(EvalError::UndefinedVariable(identifier.clone())),
                },
                None => Err(EvalError::UndefinedVariable(identifier.clone())),
            }
        },
    }
}

/// Validates a literal's text; a well-formed number is kept as text, an
/// ill-formed one is the invalid-literal error.
fn eval_literal_expr(context: &mut Context, value: &String) -> (r: Result<Value, EvalError>)
    ensures
        final(context).env() == old(context).env(),
        final(context).unit() == old(context).unit(),
        value_result_matches(r, semantics::eval_literal(value@)),
{
    if check_literal(value) {
        Ok(Value::Literal(value.clone()))
    } else {
        Err(EvalError::InvalidLiteral(value.clone()))
    }
}

/// Evaluates a grouped expression: grouping has no semantic effect.
fn eval_group_expr(context: &mut Context, inner: &Expr, fuel: u64, whole: Ghost<Expr>) -> (r:
    Result<Value, EvalError>)
    requires
        decreases_to!(whole@ => *inner),
    ensures
        ({
            let (sr, senv) = semantics::eval_expr(
                old(context).env(),
                old(context).unit(),
                inner@,
                fuel as nat,
            );
            &&& final(context).env() == senv
            &&& final(context).unit() == old(context).unit()
            &&& value_result_matches(r, sr)
        }),
    decreases fuel, whole@, 2nat,
{
    eval_expr(context, inner, fuel)
}

/// Evaluates a function call.  With one or two arguments the builtin catalog
/// is consulted first and wins whenever it knows the name; otherwise the
/// user-defined function registered under the call's key is applied: its
/// arity is checked, each argument is bound unevaluated as a variable
/// declaration in the shared store, and the body is evaluated.
#[verifier::rlimit(60)]
fn eval_fn_call_expr(
    context: &mut Context,
    identifier: &String,
    expressions: &Vec<Expr>,
    fuel: u64,
    whole: Ghost<Expr>,
) -> (r: Result<Value, EvalError>)
    requires
        decreases_to!(whole@ => *expressions),
    ensures
        ({
            let (sr, senv) = semantics::eval_expr(
                old(context).env(),
                old(context).unit(),
                SpecExpr::FnCall(identifier@, exprs_view(expressions@)),
                fuel as nat,
            );
            &&& final(context).env() == senv
            &&& final(context).unit() == old(context).unit()
            &&& value_result_matches(r, sr)
        }),
    decreases fuel, whole@, 2nat,
{
    proof {
        lemma_exprs_view(expressions@);
    }
    let prelude_func: Option<Value> = if expressions.len() == 1 {
        proof {
            vstd::std_specs::vec::axiom_vec_index_decreases(*expressions, 0int);
        }
        let x = match eval_expr(context, &expressions[0], fuel) {
            Ok(v) => v,
            Err(e) => {
                return Err(e);
            },
        };
        if builtins::unary_builtin(identifier) {
            Some(Value::UnaryCall(identifier.clone(), Box::new(x), context.angle_unit))
        } else {
            None
        }
    } else if expressions.len() == 2 {
        proof {
            vstd::std_specs::vec::axiom_vec_index_decreases(*expressions, 0int);
        }
        let x = match eval_expr(context, &expressions[0], fuel) {
            Ok(v) => v,
            Err(e) => {
                return Err(e);
            },
        };
        proof {
            vstd::std_specs::vec::axiom_vec_index_decreases(*expressions, 1int);
        }
        let y = match eval_expr(context, &expressions[1], fuel) {
            Ok(v) => v,
            Err(e) => {
                return Err(e);
            },
        };
        if builtins::binary_builtin(identifier) {
            Some(
                Value::BinaryCall(identifier.clone(), Box::new(x), Box::new(y), context.angle_unit),
            )
        } else {
            None
        }
    } else {
        None
    };
    if let Some(result) = prelude_func {
        return Ok(result);
    }
    let key = function_key(identifier);
    let stmt_definition = context.symbol_table.get(&key);
    let ghost env_after_args = context.env();
    match stmt_definition {
        Some(s) => match s {
            Stmt::FnDecl(_, arguments, fn_body) => {
                if arguments.len() != expressions.len() {
                    proof {
                        let uc = semantics::eval_user_call(
                            env_after_args,
                            old(context).unit(),
                            identifier@,
                            exprs_view(expressions@),
                            SpecExpr::FnCall(identifier@, exprs_view(expressions@)),
                            fuel as nat,
                        );
                        assert(uc.1 == env_after_args);
                    }
                    return Err(
                        EvalError::ArgumentCountMismatch(
                            identifier.clone(),
                            arguments.len(),
                            expressions.len(),
                        ),
                    );
                }
                // bind each argument, unevaluated, as its own variable
                let ghost params = arguments.deep_view();
                let ghost argsv = exprs_view(expressions@);
                let ghost env_b = context.env();
                let ghost unit0 = context.unit();
                let mut i: usize = 0;
                proof {
                    assert(params.skip(0) =~= params);
                    assert(argsv.skip(0) =~= argsv);
                }
                while i < arguments.len()
                    invariant
                        i <= arguments.len(),
                        arguments.len() == expressions.len(),
                        params == arguments.deep_view(),
                        argsv == exprs_view(expressions@),
                        argsv.len() == expressions@.len(),
                        forall|j: int|
                            0 <= j < expressions@.len() ==> argsv[j] == crate::ast::expr_view(
                                #[trigger] expressions@[j],
                            ),
                        context.unit() == unit0,
                        semantics::bind_params(env_b, params, argsv) == semantics::bind_params(
                            context.env(),
                            params.skip(i as int),
                            argsv.skip(i as int),
                        ),
                    decreases arguments.len() - i,
                {
                    proof {
                        assert(params.skip(i as int)[0] == params[i as int]);
                        assert(argsv.skip(i as int)[0] == argsv[i as int]);
                        assert(params.skip(i as int).skip(1) =~= params.skip(i as int + 1));
                        assert(argsv.skip(i as int).skip(1) =~= argsv.skip(i as int + 1));
                    }
                    let arg_copy = clone_expr(&expressions[i]);
                    let binding = Stmt::VarDecl(arguments[i].clone(), Box::new(arg_copy));
                    context.symbol_table.insert(&arguments[i], binding);
                    i += 1;
                }
                proof {
                    assert(params.skip(i as int).len() == 0);
                    assert(semantics::bind_params(env_b, params, argsv) == context.env());
                    let uc = semantics::eval_user_call(
                        env_b,
                        unit0,
                        identifier@,
                        argsv,
                        SpecExpr::FnCall(identifier@, argsv),
                        fuel as nat,
                    );
                    if fuel == 0 {
                        assert(uc.1 == context.env());
                    } else {
                        assert(uc == semantics::eval_expr(
                            context.env(),
                            unit0,
                            fn_body@,
                            (fuel - 1) as nat,
                        ));
                    }
                }
                if fuel == 0 {
                    return Err(EvalError::RecursionLimitExceeded);
                }
                eval_expr(context, &fn_body, fuel - 1)
            },
            _ => {
                proof {
                    let uc = semantics::eval_user_call(
                        env_after_args,
                        old(context).unit(),
                        identifier@,
                        exprs_view(expressions@),
                        SpecExpr::FnCall(identifier@, exprs_view(expressions@)),
                        fuel as nat,
                    );
                    assert(uc.1 == env_after_args);
                }
                Err(EvalError::UndefinedFunction(identifier.clone()))
            },
        },
        None => {
            proof {
                let uc = semantics::eval_user_call(
                    env_after_args,
                    old(context).unit(),
                    identifier@,
                    exprs_view(expressions@),
                    SpecExpr::FnCall(identifier@, exprs_view(expressions@)),
                    fuel as nat,
                );
                assert(uc.1 == env_after_args);
            }
            Err(EvalError::UndefinedFunction(identifier.clone()))
        },
    }
}

} // verus!
