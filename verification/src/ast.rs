//! The abstract syntax consumed by the evaluator, together with its
//! specification-level mirror.
//!
//! Every executable node carries `String` names and `Vec` argument lists; its
//! view replaces those with `Seq<char>` and `Seq`, so that contracts can be
//! stated over purely mathematical values.

use vstd::prelude::*;

use crate::errors::EvalError;
use crate::errors::SpecError;

verus! {

broadcast use vstd::std_specs::vec::group_vec_axioms, vstd::seq::group_seq_axioms;

/// The angle unit a context is configured with.
#[derive(Clone, Copy, PartialEq, Eq, Structural, Debug)]
pub enum Unit {
    Degrees,
    Radians,
}

/// The token kinds the evaluator inspects: the five arithmetic operators and
/// the two angle-unit suffixes.
#[derive(Clone, Copy, PartialEq, Eq, Structural, Debug)]
pub enum TokenKind {
    Plus,
    Minus,
    Star,
    Slash,
    Power,
    Deg,
    Rad,
}

/// A parsed expression.
#[derive(Debug)]
pub enum Expr {
    Binary(Box<Expr>, TokenKind, Box<Expr>),
    Unary(TokenKind, Box<Expr>),
    Unit(Box<Expr>, TokenKind),
    Var(String),
    Literal(String),
    Group(Box<Expr>),
    FnCall(String, Vec<Expr>),
}

/// A parsed statement.
#[derive(Debug)]
pub enum Stmt {
    VarDecl(String, Box<Expr>),
    FnDecl(String, Vec<String>, Box<Expr>),
    Expr(Box<Expr>),
}

/// The mathematical mirror of [`Expr`].
pub enum SpecExpr {
    Binary(Box<SpecExpr>, TokenKind, Box<SpecExpr>),
    Unary(TokenKind, Box<SpecExpr>),
    Unit(Box<SpecExpr>, TokenKind),
    Var(Seq<char>),
    Literal(Seq<char>),
    Group(Box<SpecExpr>),
    FnCall(Seq<char>, Seq<SpecExpr>),
}

/// The mathematical mirror of [`Stmt`].
pub enum SpecStmt {
    VarDecl(Seq<char>, SpecExpr),
    FnDecl(Seq<char>, Seq<Seq<char>>, SpecExpr),
    Expr(SpecExpr),
}

/// The view of an expression: the same tree over `Seq<char>` names.
pub open spec fn expr_view(e: Expr) -> SpecExpr
    decreases e,
    via expr_view_decreases
{
    match e {
        Expr::Binary(l, op, r) => SpecExpr::Binary(
            Box::new(expr_view(*l)),
            op,
            Box::new(expr_view(*r)),
        ),
        Expr::Unary(op, inner) => SpecExpr::Unary(op, Box::new(expr_view(*inner))),
        Expr::Unit(inner, k) => SpecExpr::Unit(Box::new(expr_view(*inner)), k),
        Expr::Var(name) => SpecExpr::Var(name.view()),
        Expr::Literal(text) => SpecExpr::Literal(text.view()),
        Expr::Group(inner) => SpecExpr::Group(Box::new(expr_view(*inner))),
        Expr::FnCall(name, args) => SpecExpr::FnCall(name.view(), exprs_view(args.view())),
    }
}

/// The views of a sequence of expressions, elementwise.
pub open spec fn exprs_view(s: Seq<Expr>) -> Seq<SpecExpr>
    decreases s,
{
    if s.len() == 0 {
        Seq::empty()
    } else {
        exprs_view(s.drop_last()).push(expr_view(s.last()))
    }
}

#[via_fn]
proof fn expr_view_decreases(e: Expr) {
    match e {
        Expr::FnCall(name, args) => {
            vstd::std_specs::vec::axiom_vec_decreases_to_view(args);
            assert(decreases_to!(e => args));
        },
        _ => {},
    }
}

/// Elementwise characterisation of [`exprs_view`].
pub proof fn lemma_exprs_view(s: Seq<Expr>)
    ensures
        exprs_view(s).len() == s.len(),
        forall|i: int| 0 <= i < s.len() ==> exprs_view(s)[i] == expr_view(#[trigger] s[i]),
    decreases s,
{
    if s.len() > 0 {
        lemma_exprs_view(s.drop_last());
        assert forall|i: int| 0 <= i < s.len() implies exprs_view(s)[i] == expr_view(#[trigger] s[i]) by {
            if i < s.len() - 1 {
                assert(s.drop_last()[i] == s[i]);
            }
        }
    }
}

impl View for Expr {
    type V = SpecExpr;

    open spec fn view(&self) -> SpecExpr {
        expr_view(*self)
    }
}

impl DeepView for Expr {
    type V = SpecExpr;

    open spec fn deep_view(&self) -> SpecExpr {
        self.view()
    }
}

impl View for Stmt {
    type V = SpecStmt;

    open spec fn view(&self) -> SpecStmt {
        match self {
            Stmt::VarDecl(name, body) => SpecStmt::VarDecl(name.view(), body.view()),
            Stmt::FnDecl(name, params, body) => SpecStmt::FnDecl(
                name.view(),
                params.deep_view(),
                body.view(),
            ),
            Stmt::Expr(e) => SpecStmt::Expr(e.view()),
        }
    }
}

impl DeepView for Stmt {
    type V = SpecStmt;

    open spec fn deep_view(&self) -> SpecStmt {
        self.view()
    }
}

/// Deep copy of an expression; the copy has the same view as the original.
pub fn clone_expr(e: &Expr) -> (r: Expr)
    ensures
        r@ == e@,
    decreases e,
{
    match e {
        Expr::Binary(l, op, r) => Expr::Binary(
            Box::new(clone_expr(l)),
            *op,
            Box::new(clone_expr(r)),
        ),
        Expr::Unary(op, inner) => Expr::Unary(*op, Box::new(clone_expr(inner))),
        Expr::Unit(inner, k) => Expr::Unit(Box::new(clone_expr(inner)), *k),
        Expr::Var(name) => Expr::Var(name.clone()),
        Expr::Literal(text) => Expr::Literal(text.clone()),
        Expr::Group(inner) => Expr::Group(Box::new(clone_expr(inner))),
        Expr::FnCall(name, args) => {
            let copied = clone_exprs(args);
            proof {
                lemma_exprs_view(copied@);
                lemma_exprs_view(args@);
                assert forall|j: int| 0 <= j < args@.len() implies exprs_view(copied@)[j] == exprs_view(
                    args@,
                )[j] by {
                    assert(expr_view(copied@[j]) == expr_view(args@[j]));
                }
                assert(exprs_view(copied@) =~= exprs_view(args@));
            }
            Expr::FnCall(name.clone(), copied)
        },
    }
}

/// Deep copy of an argument list; each copy has the view of its original.
fn clone_exprs(v: &Vec<Expr>) -> (r: Vec<Expr>)
    ensures
        r@.len() == v@.len(),
        forall|j: int| 0 <= j < v@.len() ==> expr_view(r@[j]) == expr_view(#[trigger] v@[j]),
    decreases v,
{
    let mut copied: Vec<Expr> = Vec::new();
    let mut i: usize = 0;
    while i < v.len()
        invariant
            i <= v.len(),
            copied.len() == i,
            forall|j: int| 0 <= j < i ==> expr_view(copied@[j]) == expr_view(#[trigger] v@[j]),
        decreases v@.len() - i,
    {
        proof {
            vstd::std_specs::vec::axiom_vec_index_decreases(*v, i as int);
        }
        copied.push(clone_expr(&v[i]));
        i += 1;
    }
    copied
}

/// The unit a token kind names, if any.
pub open spec fn spec_to_unit(kind: TokenKind) -> Option<Unit> {
    match kind {
        TokenKind::Deg => Some(Unit::Degrees),
        TokenKind::Rad => Some(Unit::Radians),
        _ => None,
    }
}

impl TokenKind {
    /// Resolves a unit-annotation token to its unit; an unrecognised suffix
    /// is an evaluation error.
    pub fn to_unit(&self) -> (r: Result<Unit, EvalError>)
        ensures
            match r {
                Ok(u) => spec_to_unit(*self) == Some(u),
                Err(e) => spec_to_unit(*self) is None && e@ == SpecError::InvalidUnitSuffix,
            },
    {
        match self {
            TokenKind::Deg => Ok(Unit::Degrees),
            TokenKind::Rad => Ok(Unit::Radians),
            _ => Err(EvalError::InvalidUnitSuffix),
        }
    }
}

/// Deep copy of a statement; the copy has the same view as the original.
pub fn clone_stmt(s: &Stmt) -> (r: Stmt)
    ensures
        r@ == s@,
{
    match s {
        Stmt::VarDecl(name, body) => Stmt::VarDecl(name.clone(), Box::new(clone_expr(body))),
        Stmt::FnDecl(name, params, body) => {
            let mut copied: Vec<String> = Vec::new();
            let mut i: usize = 0;
            while i < params.len()
                invariant
                    i <= params.len(),
                    copied.len() == i,
                    forall|j: int| 0 <= j < i ==> copied[j]@ == params[j]@,
                decreases params.len() - i,
            {
                copied.push(params[i].clone());
                i += 1;
            }
            proof {
                assert(copied.deep_view() =~= params.deep_view());
            }
            Stmt::FnDecl(name.clone(), copied, Box::new(clone_expr(body)))
        },
        Stmt::Expr(e) => Stmt::Expr(Box::new(clone_expr(e))),
    }
}

} // verus!
