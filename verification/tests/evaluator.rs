//! End-to-end tests: statement sequences are interpreted into symbolic
//! numeric terms, and a small numeric fold turns those terms into
//! double-precision results.

use calc_eval::ast::Expr;
use calc_eval::ast::Stmt;
use calc_eval::ast::TokenKind;
use calc_eval::ast::Unit;
use calc_eval::errors::EvalError;
use calc_eval::interpreter::function_key;
use calc_eval::interpreter::Context;
use calc_eval::symbols::SymbolTable;
use calc_eval::value::Value;

fn lit(text: &str) -> Expr {
    Expr::Literal(text.to_string())
}

fn var(name: &str) -> Expr {
    Expr::Var(name.to_string())
}

fn bin(l: Expr, op: TokenKind, r: Expr) -> Expr {
    Expr::Binary(Box::new(l), op, Box::new(r))
}

fn call(name: &str, args: Vec<Expr>) -> Expr {
    Expr::FnCall(name.to_string(), args)
}

fn var_decl(name: &str, body: Expr) -> Stmt {
    Stmt::VarDecl(name.to_string(), Box::new(body))
}

fn fn_decl(name: &str, params: &[&str], body: Expr) -> Stmt {
    Stmt::FnDecl(
        name.to_string(),
        params.iter().map(|p| p.to_string()).collect(),
        Box::new(body),
    )
}

fn expr_stmt(e: Expr) -> Stmt {
    Stmt::Expr(Box::new(e))
}

/// Folds a symbolic term into a double-precision number.
fn fold(v: &Value) -> f64 {
    match v {
        Value::Zero => 0.0,
        Value::Literal(text) => text.parse().unwrap(),
        Value::Binary(l, op, r) => {
            let a = fold(l);
            let b = fold(r);
            match op {
                TokenKind::Plus => a + b,
                TokenKind::Minus => a - b,
                TokenKind::Star => a * b,
                TokenKind::Slash => a / b,
                TokenKind::Power => a.powf(b),
                _ => 0.0,
            }
        }
        Value::ToRadians(x) => fold(x).to_radians(),
        Value::ToDegrees(x) => fold(x).to_degrees(),
        Value::UnaryCall(name, x, unit) => {
            let a = fold(x);
            let input = |v: f64| match unit {
                Unit::Degrees => v.to_radians(),
                Unit::Radians => v,
            };
            match name.as_str() {
                "sin" => input(a).sin(),
                "cos" => input(a).cos(),
                "tan" => input(a).tan(),
                "asin" => a.asin(),
                "acos" => a.acos(),
                "atan" => a.atan(),
                "sinh" => a.sinh(),
                "cosh" => a.cosh(),
                "tanh" => a.tanh(),
                "abs" => a.abs(),
                "ceil" => a.ceil(),
                "floor" => a.floor(),
                "round" => a.round(),
                "trunc" => a.trunc(),
                "sqrt" => a.sqrt(),
                "ln" => a.ln(),
                "log" => a.log10(),
                "exp" => a.exp(),
                _ => panic!("unknown unary builtin"),
            }
        }
        Value::BinaryCall(name, x, y, _unit) => {
            let a = fold(x);
            let b = fold(y);
            match name.as_str() {
                "max" => a.max(b),
                "min" => a.min(b),
                "hypot" => a.hypot(b),
                "atan2" => a.atan2(b),
                _ => panic!("unknown binary builtin"),
            }
        }
    }
}

fn interpret_value(unit: Unit, table: SymbolTable, stmts: Vec<Stmt>) -> Result<Option<f64>, EvalError> {
    let mut context = Context::new(unit, table);
    match context.interpret(stmts) {
        Ok(Some(v)) => Ok(Some(fold(&v))),
        Ok(None) => Ok(None),
        Err(e) => Err(e),
    }
}

fn eval_one(e: Expr) -> f64 {
    interpret_value(Unit::Radians, SymbolTable::new(), vec![expr_stmt(e)])
        .unwrap()
        .unwrap()
}

#[test]
fn adds_literals() {
    assert_eq!(eval_one(bin(lit("2"), TokenKind::Plus, lit("3"))), 5.0);
}

#[test]
fn subtracts_literals() {
    assert_eq!(eval_one(bin(lit("7"), TokenKind::Minus, lit("2.5"))), 4.5);
}

#[test]
fn multiplies_literals() {
    assert_eq!(eval_one(bin(lit("6"), TokenKind::Star, lit("7"))), 42.0);
}

#[test]
fn divides_literals() {
    assert_eq!(eval_one(bin(lit("1"), TokenKind::Slash, lit("4"))), 0.25);
}

#[test]
fn raises_to_powers() {
    assert_eq!(eval_one(bin(lit("2"), TokenKind::Power, lit("10"))), 1024.0);
}

#[test]
fn division_by_zero_is_infinite() {
    let r = eval_one(bin(lit("1"), TokenKind::Slash, lit("0")));
    assert!(r.is_infinite() && r > 0.0);
}

#[test]
fn unknown_operator_yields_zero() {
    assert_eq!(eval_one(bin(lit("1"), TokenKind::Deg, lit("2"))), 0.0);
}

#[test]
fn unary_forwards_operand() {
    assert_eq!(
        eval_one(Expr::Unary(TokenKind::Minus, Box::new(lit("5")))),
        5.0
    );
}

#[test]
fn group_is_transparent() {
    assert_eq!(eval_one(Expr::Group(Box::new(lit("8")))), 8.0);
}

#[test]
fn declared_variable_is_referenced() {
    let r = interpret_value(
        Unit::Radians,
        SymbolTable::new(),
        vec![
            var_decl("x", bin(lit("3"), TokenKind::Plus, lit("4"))),
            expr_stmt(bin(var("x"), TokenKind::Star, lit("2"))),
        ],
    );
    assert_eq!(r.unwrap(), Some(14.0));
}

#[test]
fn function_call_substitutes_positionally() {
    let body = || {
        bin(
            bin(var("a"), TokenKind::Star, var("a")),
            TokenKind::Plus,
            var("b"),
        )
    };
    let mut table = SymbolTable::new();
    table.insert(
        &function_key(&"f".to_string()),
        fn_decl("f", &["a", "b"], body()),
    );
    let r = interpret_value(
        Unit::Radians,
        table,
        vec![
            fn_decl("f", &["a", "b"], body()),
            expr_stmt(call("f", vec![lit("3"), lit("4")])),
        ],
    );
    assert_eq!(r.unwrap(), Some(13.0));
}

#[test]
fn redeclaration_overwrites() {
    let r = interpret_value(
        Unit::Radians,
        SymbolTable::new(),
        vec![
            var_decl("x", lit("1")),
            var_decl("x", lit("2")),
            expr_stmt(var("x")),
        ],
    );
    assert_eq!(r.unwrap(), Some(2.0));
}

#[test]
fn trailing_declaration_yields_no_value() {
    let r = interpret_value(
        Unit::Radians,
        SymbolTable::new(),
        vec![var_decl("x", lit("5"))],
    );
    assert_eq!(r.unwrap(), None);
}

#[test]
fn empty_sequence_yields_no_value() {
    let r = interpret_value(Unit::Radians, SymbolTable::new(), vec![]);
    assert_eq!(r.unwrap(), None);
}

#[test]
fn non_last_expression_value_is_discarded() {
    let r = interpret_value(
        Unit::Radians,
        SymbolTable::new(),
        vec![
            expr_stmt(bin(lit("2"), TokenKind::Plus, lit("2"))),
            var_decl("x", lit("1")),
        ],
    );
    assert_eq!(r.unwrap(), None);
}

#[test]
fn undefined_variable_errors() {
    let r = interpret_value(
        Unit::Radians,
        SymbolTable::new(),
        vec![expr_stmt(var("ghostly"))],
    );
    assert!(matches!(r, Err(EvalError::UndefinedVariable(n)) if n == "ghostly"));
}

#[test]
fn undefined_function_errors() {
    let r = interpret_value(
        Unit::Radians,
        SymbolTable::new(),
        vec![expr_stmt(call("nosuch", vec![lit("1"), lit("2"), lit("3")]))],
    );
    assert!(matches!(r, Err(EvalError::UndefinedFunction(n)) if n == "nosuch"));
}

#[test]
fn argument_count_mismatch_errors() {
    let mut table = SymbolTable::new();
    table.insert(
        &function_key(&"f".to_string()),
        fn_decl("f", &["a", "b"], var("a")),
    );
    let r = interpret_value(
        Unit::Radians,
        table,
        vec![expr_stmt(call("f", vec![lit("1"), lit("2"), lit("3")]))],
    );
    assert!(
        matches!(r, Err(EvalError::ArgumentCountMismatch(n, 2, 3)) if n == "f")
    );
}

#[test]
fn argument_count_mismatch_after_builtin_miss() {
    let mut table = SymbolTable::new();
    table.insert(
        &function_key(&"f".to_string()),
        fn_decl("f", &["a", "b"], var("a")),
    );
    let r = interpret_value(
        Unit::Radians,
        table,
        vec![expr_stmt(call("f", vec![lit("1")]))],
    );
    assert!(
        matches!(r, Err(EvalError::ArgumentCountMismatch(n, 2, 1)) if n == "f")
    );
}

#[test]
fn error_mid_sequence_aborts() {
    let r = interpret_value(
        Unit::Radians,
        SymbolTable::new(),
        vec![expr_stmt(var("nope")), expr_stmt(lit("2"))],
    );
    assert!(matches!(r, Err(EvalError::UndefinedVariable(_))));
}

#[test]
fn invalid_literal_errors() {
    let r = interpret_value(
        Unit::Radians,
        SymbolTable::new(),
        vec![expr_stmt(lit("abc"))],
    );
    assert!(matches!(r, Err(EvalError::InvalidLiteral(t)) if t == "abc"));
}

#[test]
fn literal_forms_accepted() {
    assert_eq!(eval_one(lit(".5")), 0.5);
    assert_eq!(eval_one(lit("5.")), 5.0);
    assert_eq!(eval_one(lit("1e3")), 1000.0);
    assert_eq!(eval_one(lit("1E-2")), 0.01);
    assert_eq!(eval_one(lit("-2.5")), -2.5);
    assert_eq!(eval_one(lit("+3")), 3.0);
    assert!(eval_one(lit("inf")).is_infinite());
    assert!(eval_one(lit("NaN")).is_nan());
}

#[test]
fn literal_forms_rejected() {
    for bad in ["", ".", "1.2.3", "1e", "e5", "1e2.5", "--3", "5 "] {
        let r = interpret_value(
            Unit::Radians,
            SymbolTable::new(),
            vec![expr_stmt(lit(bad))],
        );
        assert!(
            matches!(r, Err(EvalError::InvalidLiteral(_))),
            "accepted {:?}",
            bad
        );
    }
}

#[test]
fn constant_expands_to_its_value() {
    let r = eval_one(var("pi"));
    assert!((r - std::f64::consts::PI).abs() < 1e-6);
}

#[test]
fn matching_unit_annotation_is_noop() {
    let r = interpret_value(
        Unit::Radians,
        SymbolTable::new(),
        vec![expr_stmt(Expr::Unit(Box::new(lit("1.5")), TokenKind::Rad))],
    );
    assert_eq!(r.unwrap(), Some(1.5));
}

#[test]
fn differing_unit_annotation_converts() {
    let r = interpret_value(
        Unit::Radians,
        SymbolTable::new(),
        vec![expr_stmt(Expr::Unit(Box::new(lit("90")), TokenKind::Deg))],
    )
    .unwrap()
    .unwrap();
    assert!((r - std::f64::consts::FRAC_PI_2).abs() < 1e-12);
    let d = interpret_value(
        Unit::Degrees,
        SymbolTable::new(),
        vec![expr_stmt(Expr::Unit(Box::new(lit("3.14159265358979")), TokenKind::Rad))],
    )
    .unwrap()
    .unwrap();
    assert!((d - 180.0).abs() < 1e-9);
}

#[test]
fn unit_conversions_round_trip() {
    let x: f64 = 123.456;
    let back = x.to_radians().to_degrees();
    assert!((back - x).abs() < 1e-9);
}

#[test]
fn invalid_unit_suffix_errors() {
    let r = interpret_value(
        Unit::Radians,
        SymbolTable::new(),
        vec![expr_stmt(Expr::Unit(Box::new(lit("1")), TokenKind::Plus))],
    );
    assert!(matches!(r, Err(EvalError::InvalidUnitSuffix)));
}

#[test]
fn builtin_unary_respects_angle_unit() {
    let in_radians = interpret_value(
        Unit::Radians,
        SymbolTable::new(),
        vec![expr_stmt(call("sin", vec![var("pi")]))],
    )
    .unwrap()
    .unwrap();
    assert!(in_radians.abs() < 1e-6);
    let in_degrees = interpret_value(
        Unit::Degrees,
        SymbolTable::new(),
        vec![expr_stmt(call("sin", vec![lit("90")]))],
    )
    .unwrap()
    .unwrap();
    assert!((in_degrees - 1.0).abs() < 1e-12);
}

#[test]
fn builtin_binary_dispatches() {
    assert_eq!(eval_one(call("max", vec![lit("2"), lit("3")])), 3.0);
    assert_eq!(eval_one(call("min", vec![lit("2"), lit("3")])), 2.0);
}

#[test]
fn builtin_takes_precedence_over_user_function() {
    let mut table = SymbolTable::new();
    // a user function named like the builtin: the builtin must win
    table.insert(
        &function_key(&"sin".to_string()),
        fn_decl("sin", &["a"], lit("42")),
    );
    let r = interpret_value(
        Unit::Radians,
        table,
        vec![expr_stmt(call("sin", vec![lit("0")]))],
    )
    .unwrap()
    .unwrap();
    assert_eq!(r, 0.0);
}

#[test]
fn user_function_with_builtin_miss_is_used() {
    // three arguments never dispatch to a builtin
    let body = bin(
        bin(var("a"), TokenKind::Plus, var("b")),
        TokenKind::Plus,
        var("c"),
    );
    let mut table = SymbolTable::new();
    table.insert(
        &function_key(&"addthree".to_string()),
        fn_decl("addthree", &["a", "b", "c"], body),
    );
    let r = interpret_value(
        Unit::Radians,
        table,
        vec![expr_stmt(call("addthree", vec![lit("1"), lit("2"), lit("3")]))],
    );
    assert_eq!(r.unwrap(), Some(6.0));
}

#[test]
fn self_referential_variable_hits_recursion_limit() {
    let r = interpret_value(
        Unit::Radians,
        SymbolTable::new(),
        vec![var_decl("x", var("x")), expr_stmt(var("x"))],
    );
    assert!(matches!(r, Err(EvalError::RecursionLimitExceeded)));
}

#[test]
fn environment_persists_across_interpretations() {
    let mut context = Context::new(Unit::Radians, SymbolTable::new());
    assert!(matches!(
        context.interpret(vec![var_decl("x", lit("5"))]),
        Ok(None)
    ));
    let table = context.into_symbol_table();
    let r = interpret_value(Unit::Radians, table, vec![expr_stmt(var("x"))]);
    assert_eq!(r.unwrap(), Some(5.0));
}

#[test]
fn function_parameters_share_the_global_store() {
    // binding a parameter permanently overwrites a variable of that name
    let mut table = SymbolTable::new();
    table.insert(
        &function_key(&"id".to_string()),
        fn_decl("id", &["a", "b", "c"], var("a")),
    );
    let r = interpret_value(
        Unit::Radians,
        table,
        vec![
            var_decl("a", lit("1")),
            expr_stmt(call("id", vec![lit("9"), lit("0"), lit("0")])),
            expr_stmt(var("a")),
        ],
    );
    assert_eq!(r.unwrap(), Some(9.0));
}
