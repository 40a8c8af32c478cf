//! The flat post-transformation form and the lowering projection.
//!
//! Lowering collapses the three CPS sorts into a single expression sort with
//! explicitly tagged one-argument and two-argument lambdas and calls.  It is
//! purely structural: it preserves alpha-equivalence and introduces no fresh
//! names.

use vstd::prelude::*;

use crate::cont_expr::{CCall, CallView, KExpr, KView, UExpr, UView};
use crate::ident::{Ident, IdentView};
use crate::literals::Literal;

verus! {

/// Mathematical model of a flat expression.
pub enum FView {
    Var(IdentView),
    Lit(nat),
    LamOne(IdentView, Box<FView>),
    LamTwo(IdentView, IdentView, Box<FView>),
    CallOne(Box<FView>, Box<FView>),
    CallTwo(Box<FView>, Box<FView>, Box<FView>),
}

/// A flat expression.  `LamOne`/`CallOne` come from continuation lambdas and
/// continuation calls; `LamTwo`/`CallTwo` come from user lambdas and user
/// calls.
pub enum FExpr {
    Var(Ident),
    Lit(Literal),
    LamOne(Ident, Box<FExpr>),
    LamTwo(Ident, Ident, Box<FExpr>),
    CallOne(Box<FExpr>, Box<FExpr>),
    CallTwo(Box<FExpr>, Box<FExpr>, Box<FExpr>),
}

/// The model of a flat expression.
pub open spec fn view_f(e: FExpr) -> FView
    decreases e,
{
    match e {
        FExpr::Var(x) => FView::Var(x@),
        FExpr::Lit(l) => FView::Lit(l@),
        FExpr::LamOne(x, b) => FView::LamOne(x@, Box::new(view_f(*b))),
        FExpr::LamTwo(x, k, b) => FView::LamTwo(x@, k@, Box::new(view_f(*b))),
        FExpr::CallOne(f, v) => FView::CallOne(Box::new(view_f(*f)), Box::new(view_f(*v))),
        FExpr::CallTwo(f, v, c) => FView::CallTwo(
            Box::new(view_f(*f)),
            Box::new(view_f(*v)),
            Box::new(view_f(*c)),
        ),
    }
}

impl View for FExpr {
    type V = FView;

    open spec fn view(&self) -> FView {
        view_f(*self)
    }
}

/// Lowering of a user expression.
pub open spec fn spec_lower_u(u: UView) -> FView
    decreases u,
{
    match u {
        UView::Lam(x, k, b) => FView::LamTwo(x, k, Box::new(spec_lower_call(*b))),
        UView::Var(x) => FView::Var(x),
        UView::Lit(l) => FView::Lit(l),
    }
}

/// Lowering of a continuation expression.
pub open spec fn spec_lower_k(k: KView) -> FView
    decreases k,
{
    match k {
        KView::Lam(x, b) => FView::LamOne(x, Box::new(spec_lower_call(*b))),
        KView::Var(x) => FView::Var(x),
        KView::Lit(l) => FView::Lit(l),
    }
}

/// Lowering of a call.
pub open spec fn spec_lower_call(c: CallView) -> FView
    decreases c,
{
    match c {
        CallView::UCall(f, v, k) => FView::CallTwo(
            Box::new(spec_lower_u(*f)),
            Box::new(spec_lower_u(*v)),
            Box::new(spec_lower_k(*k)),
        ),
        CallView::KCall(f, v) => FView::CallOne(
            Box::new(spec_lower_k(*f)),
            Box::new(spec_lower_u(*v)),
        ),
    }
}

impl UExpr {
    /// Lower this user expression to flat form, consuming it.
    pub fn into_fexpr(self) -> (r: FExpr)
        ensures
            r@ == spec_lower_u(self@),
        decreases self,
    {
        match self {
            UExpr::Lam(x, k, b) => {
                let body = (*b).into_fexpr();
                FExpr::LamTwo(x, k, Box::new(body))
            },
            UExpr::Var(x) => FExpr::Var(x),
            UExpr::Lit(l) => FExpr::Lit(l),
        }
    }
}

impl KExpr {
    /// Lower this continuation expression to flat form, consuming it.
    pub fn into_fexpr(self) -> (r: FExpr)
        ensures
            r@ == spec_lower_k(self@),
        decreases self,
    {
        match self {
            KExpr::Lam(x, b) => {
                let body = (*b).into_fexpr();
                FExpr::LamOne(x, Box::new(body))
            },
            KExpr::Var(x) => FExpr::Var(x),
            KExpr::Lit(l) => FExpr::Lit(l),
        }
    }
}

impl CCall {
    /// Lower this call to flat form, consuming it.
    pub fn into_fexpr(self) -> (r: FExpr)
        ensures
            r@ == spec_lower_call(self@),
        decreases self,
    {
        match self {
            CCall::UCall(f, v, k) => {
                let fl = (*f).into_fexpr();
                let vl = (*v).into_fexpr();
                let kl = (*k).into_fexpr();
                FExpr::CallTwo(Box::new(fl), Box::new(vl), Box::new(kl))
            },
            CCall::KCall(f, v) => {
                let fl = (*f).into_fexpr();
                let vl = (*v).into_fexpr();
                FExpr::CallOne(Box::new(fl), Box::new(vl))
            },
        }
    }
}

} // verus!
