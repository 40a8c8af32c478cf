//! The direct-style surface grammar.

use vstd::prelude::*;

use crate::ident::{Ident, IdentView};
use crate::literals::Literal;

verus! {

/// Mathematical model of a surface expression.
pub enum ExprView {
    Var(IdentView),
    Lit(nat),
    Lam(IdentView, Box<ExprView>),
    App(Box<ExprView>, Box<ExprView>),
}

/// A surface expression: variable, literal, single-parameter lambda, or
/// single-argument application.
///
/// A lambda is a scope: a binder together with a body; occurrences of the
/// binder's identity inside the body are bound by it.  Terms are compared up
/// to alpha-equivalence (see [`crate::alpha`]), never by derived structural
/// equality.
pub enum Expr {
    Var(Ident),
    Lit(Literal),
    Lam(Ident, Box<Expr>),
    App(Box<Expr>, Box<Expr>),
}

/// The model of a surface expression.
pub open spec fn view_expr(e: Expr) -> ExprView
    decreases e,
{
    match e {
        Expr::Var(x) => ExprView::Var(x@),
        Expr::Lit(l) => ExprView::Lit(l@),
        Expr::Lam(x, b) => ExprView::Lam(x@, Box::new(view_expr(*b))),
        Expr::App(f, a) => ExprView::App(Box::new(view_expr(*f)), Box::new(view_expr(*a))),
    }
}

impl View for Expr {
    type V = ExprView;

    open spec fn view(&self) -> ExprView {
        view_expr(*self)
    }
}

/// True when `e` is trivial (atomic): a variable, literal, or lambda — an
/// expression whose evaluation does not require a continuation.
pub open spec fn is_trivial(e: ExprView) -> bool {
    !(e is App)
}

} // verus!
