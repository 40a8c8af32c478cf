//! The CPS grammar and the one-pass CPS transformation kernel.
//!
//! The target grammar has three mutually recursive sorts: user expressions
//! ([`UExpr`]), continuation expressions ([`KExpr`]) and calls ([`CCall`]).
//! User lambdas bind a value parameter and a continuation parameter around a
//! call; continuation lambdas bind a single value parameter around a call;
//! every call applies either a user function to a value and a continuation,
//! or a continuation to a value.
//!
//! The kernel is the classic one-pass translation given by three mutually
//! recursive procedures: [`t_k`] translates under a reified continuation
//! expression, `t_c` translates under a continuation *variable*, and `m`
//! embeds a trivial expression directly.  [`cps`] is the entry point.
//!
//! Each procedure is specified exactly by its spec-level counterpart
//! ([`spec_t_k`], [`spec_t_c`], [`spec_m`]), which fixes the whole output
//! tree as a function of the input model and the state of the fresh-name
//! generator.

use vstd::prelude::*;

use crate::expr::{is_trivial, view_expr, Expr, ExprView};
use crate::ident::{Gen, Ident, IdentView};
use crate::literals::Literal;

verus! {

/// Mathematical model of a user expression.
pub enum UView {
    Lam(IdentView, IdentView, Box<CallView>),
    Var(IdentView),
    Lit(nat),
}

/// Mathematical model of a continuation expression.
pub enum KView {
    Lam(IdentView, Box<CallView>),
    Var(IdentView),
    Lit(nat),
}

/// Mathematical model of a call.
pub enum CallView {
    UCall(Box<UView>, Box<UView>, Box<KView>),
    KCall(Box<KView>, Box<UView>),
}

/// A user expression: a user lambda binding a value parameter and a
/// continuation parameter around a call, a variable, or a literal.
pub enum UExpr {
    Lam(Ident, Ident, Box<CCall>),
    Var(Ident),
    Lit(Literal),
}

/// A continuation expression: a continuation lambda binding one value
/// parameter around a call, a variable, or a literal.
pub enum KExpr {
    Lam(Ident, Box<CCall>),
    Var(Ident),
    Lit(Literal),
}

/// A call: apply a user function to a value and a continuation, or apply a
/// continuation to a value.
pub enum CCall {
    UCall(Box<UExpr>, Box<UExpr>, Box<KExpr>),
    KCall(Box<KExpr>, Box<UExpr>),
}

/// The model of a user expression.
pub open spec fn view_u(u: UExpr) -> UView
    decreases u,
{
    match u {
        UExpr::Lam(x, k, c) => UView::Lam(x@, k@, Box::new(view_call(*c))),
        UExpr::Var(x) => UView::Var(x@),
        UExpr::Lit(l) => UView::Lit(l@),
    }
}

/// The model of a continuation expression.
pub open spec fn view_k(k: KExpr) -> KView
    decreases k,
{
    match k {
        KExpr::Lam(x, c) => KView::Lam(x@, Box::new(view_call(*c))),
        KExpr::Var(x) => KView::Var(x@),
        KExpr::Lit(l) => KView::Lit(l@),
    }
}

/// The model of a call.
pub open spec fn view_call(c: CCall) -> CallView
    decreases c,
{
    match c {
        CCall::UCall(f, v, k) => CallView::UCall(
            Box::new(view_u(*f)),
            Box::new(view_u(*v)),
            Box::new(view_k(*k)),
        ),
        CCall::KCall(f, v) => CallView::KCall(Box::new(view_k(*f)), Box::new(view_u(*v))),
    }
}

impl View for UExpr {
    type V = UView;

    open spec fn view(&self) -> UView {
        view_u(*self)
    }
}

impl View for KExpr {
    type V = KView;

    open spec fn view(&self) -> KView {
        view_k(*self)
    }
}

impl View for CCall {
    type V = CallView;

    open spec fn view(&self) -> CallView {
        view_call(*self)
    }
}

/// How many fresh identifiers `m` draws on a trivial expression.
pub open spec fn fuel_m(e: ExprView) -> nat
    decreases e, 0int,
{
    match e {
        ExprView::Lam(_x, b) => 1 + fuel_t_c(*b),
        _ => 0,
    }
}

/// How many fresh identifiers `t_c` draws.
pub open spec fn fuel_t_c(e: ExprView) -> nat
    decreases e, 1int,
{
    match e {
        ExprView::App(f, a) => 2 + fuel_t_k(*f) + fuel_t_k(*a),
        _ => fuel_m(e),
    }
}

/// How many fresh identifiers `t_k` draws.
pub open spec fn fuel_t_k(e: ExprView) -> nat
    decreases e, 1int,
{
    match e {
        ExprView::App(f, a) => 3 + fuel_t_k(*f) + fuel_t_k(*a),
        _ => fuel_m(e),
    }
}

/// Atomic translation of a trivial expression, drawing fresh identities
/// `n`, `n + 1`, ... for the continuation parameters it introduces.
pub open spec fn spec_m(e: ExprView, n: nat) -> UView
    decreases e, 0int,
{
    match e {
        ExprView::Var(x) => UView::Var(x),
        ExprView::Lit(l) => UView::Lit(l),
        ExprView::Lam(x, b) => {
            let k = IdentView { id: n, hint: "k"@ };
            UView::Lam(x, k, Box::new(spec_t_c(*b, k, n + 1)))
        },
        ExprView::App(_f, _a) => arbitrary(),
    }
}

/// Translation of `e` under the continuation *variable* `c`.
pub open spec fn spec_t_c(e: ExprView, c: IdentView, n: nat) -> CallView
    decreases e, 1int,
{
    match e {
        ExprView::App(f, a) => {
            let fv = IdentView { id: n, hint: "f"@ };
            let ev = IdentView { id: n + 1, hint: "e"@ };
            let inner = CallView::UCall(
                Box::new(UView::Var(fv)),
                Box::new(UView::Var(ev)),
                Box::new(KView::Var(c)),
            );
            let k2 = KView::Lam(ev, Box::new(inner));
            let a_out = spec_t_k(*a, k2, n + 2);
            let k1 = KView::Lam(fv, Box::new(a_out));
            spec_t_k(*f, k1, n + 2 + fuel_t_k(*a))
        },
        _ => CallView::KCall(Box::new(KView::Var(c)), Box::new(spec_m(e, n))),
    }
}

/// Translation of `e` under the reified continuation expression `k`.
pub open spec fn spec_t_k(e: ExprView, k: KView, n: nat) -> CallView
    decreases e, 1int,
{
    match e {
        ExprView::App(f, a) => {
            let rv = IdentView { id: n, hint: "rv"@ };
            let fv = IdentView { id: n + 1, hint: "f"@ };
            let ev = IdentView { id: n + 2, hint: "e"@ };
            let cont = KView::Lam(
                rv,
                Box::new(CallView::KCall(Box::new(k), Box::new(UView::Var(rv)))),
            );
            let inner = CallView::UCall(
                Box::new(UView::Var(fv)),
                Box::new(UView::Var(ev)),
                Box::new(cont),
            );
            let k2 = KView::Lam(ev, Box::new(inner));
            let a_out = spec_t_k(*a, k2, n + 3);
            let k1 = KView::Lam(fv, Box::new(a_out));
            spec_t_k(*f, k1, n + 3 + fuel_t_k(*a))
        },
        _ => CallView::KCall(Box::new(k), Box::new(spec_m(e, n))),
    }
}

/// The whole transformation: `spec_cps(e, halt, n)` is the call that applies
/// `halt` to the value of `e`, built with fresh identities starting at `n`.
pub open spec fn spec_cps(e: ExprView, halt: KView, n: nat) -> CallView {
    spec_t_k(e, halt, n)
}

/// Atomic translation: embed a trivial expression as a user expression.
///
/// The argument must be trivial; passing an application is a contract
/// violation of the caller, which the spec makes statically impossible.
fn m(expr: Expr, gen: &mut Gen) -> (r: UExpr)
    requires
        is_trivial(expr@),
        old(gen).next + fuel_m(expr@) <= u64::MAX,
    ensures
        r@ == spec_m(expr@, old(gen).next as nat),
        final(gen).next == old(gen).next + fuel_m(expr@),
    decreases expr, 0int,
{
    match expr {
        Expr::Lam(x, b) => {
            let ghost n = old(gen).next as nat;
            let kc = gen.fresh("k");
            proof {
                assert(kc@ =~= (IdentView { id: n, hint: "k"@ }));
            }
            let kc_ref = kc.duplicate();
            let body = t_c(*b, kc_ref, gen);
            UExpr::Lam(x, kc, Box::new(body))
        },
        Expr::Var(v) => UExpr::Var(v),
        Expr::Lit(l) => UExpr::Lit(l),
        Expr::App(_f, _a) => vstd::pervasive::unreached(),
    }
}

/// Translation of `expr` under the continuation variable `c`: used for the
/// body of a source lambda, whose continuation is the fresh continuation
/// parameter of the enclosing CPS lambda.
fn t_c(expr: Expr, c: Ident, gen: &mut Gen) -> (r: CCall)
    requires
        old(gen).next + fuel_t_c(expr@) <= u64::MAX,
    ensures
        r@ == spec_t_c(expr@, c@, old(gen).next as nat),
        final(gen).next == old(gen).next + fuel_t_c(expr@),
    decreases expr, 1int,
{
    match expr {
        Expr::App(f, a) => {
            let ghost fw = view_expr(*f);
            let ghost aw = view_expr(*a);
            let ghost cw = c@;
            let ghost n = old(gen).next as nat;
            proof {
                assert(expr@ == ExprView::App(Box::new(fw), Box::new(aw)));
            }
            let ghost fvw = IdentView { id: n, hint: "f"@ };
            let ghost evw = IdentView { id: n + 1, hint: "e"@ };
            let fv = gen.fresh("f");
            let ev = gen.fresh("e");
            proof {
                assert(fv@ =~= fvw);
                assert(ev@ =~= evw);
            }
            let inner = CCall::UCall(
                Box::new(UExpr::Var(fv.duplicate())),
                Box::new(UExpr::Var(ev.duplicate())),
                Box::new(KExpr::Var(c)),
            );
            proof {
                assert(inner@ == CallView::UCall(
                    Box::new(UView::Var(fvw)),
                    Box::new(UView::Var(evw)),
                    Box::new(KView::Var(cw)),
                ));
            }
            let ghost innerw = inner@;
            let k2 = KExpr::Lam(ev, Box::new(inner));
            proof {
                assert(k2@ == KView::Lam(evw, Box::new(innerw)));
            }
            let ghost k2w = k2@;
            let a_out = t_k(*a, k2, gen);
            let ghost a_outw = a_out@;
            let k1 = KExpr::Lam(fv, Box::new(a_out));
            proof {
                assert(k1@ == KView::Lam(fvw, Box::new(a_outw)));
            }
            let ghost k1w = k1@;
            let r = t_k(*f, k1, gen);
            proof {
                assert(a_outw == spec_t_k(aw, k2w, n + 2));
                assert(r@ == spec_t_k(fw, k1w, n + 2 + fuel_t_k(aw)));
                assert(r@ == spec_t_c(expr@, cw, n));
            }
            r
        },
        e => CCall::KCall(Box::new(KExpr::Var(c)), Box::new(m(e, gen))),
    }
}

/// Translation of `expr` under the reified continuation `k`: the returned
/// call applies `k` to the value of `expr`.
pub fn t_k(expr: Expr, k: KExpr, gen: &mut Gen) -> (r: CCall)
    requires
        old(gen).next + fuel_t_k(expr@) <= u64::MAX,
    ensures
        r@ == spec_t_k(expr@, k@, old(gen).next as nat),
        final(gen).next == old(gen).next + fuel_t_k(expr@),
    decreases expr, 1int,
{
    match expr {
        Expr::App(f, a) => {
            let ghost fw = view_expr(*f);
            let ghost aw = view_expr(*a);
            let ghost kw = k@;
            let ghost n = old(gen).next as nat;
            proof {
                assert(expr@ == ExprView::App(Box::new(fw), Box::new(aw)));
            }
            let ghost rvw = IdentView { id: n, hint: "rv"@ };
            let ghost fvw = IdentView { id: n + 1, hint: "f"@ };
            let ghost evw = IdentView { id: n + 2, hint: "e"@ };
            let rv = gen.fresh("rv");
            proof {
                assert(rv@ =~= rvw);
            }
            let cont_body = CCall::KCall(Box::new(k), Box::new(UExpr::Var(rv.duplicate())));
            proof {
                assert(cont_body@ == CallView::KCall(Box::new(kw), Box::new(UView::Var(rvw))));
            }
            let ghost cont_bodyw = cont_body@;
            let cont = KExpr::Lam(rv, Box::new(cont_body));
            proof {
                assert(cont@ == KView::Lam(rvw, Box::new(cont_bodyw)));
            }
            let ghost contw = cont@;
            let fv = gen.fresh("f");
            let ev = gen.fresh("e");
            proof {
                assert(fv@ =~= fvw);
                assert(ev@ =~= evw);
            }
            let inner = CCall::UCall(
                Box::new(UExpr::Var(fv.duplicate())),
                Box::new(UExpr::Var(ev.duplicate())),
                Box::new(cont),
            );
            proof {
                assert(inner@ == CallView::UCall(
                    Box::new(UView::Var(fvw)),
                    Box::new(UView::Var(evw)),
                    Box::new(contw),
                ));
            }
            let ghost innerw = inner@;
            let k2 = KExpr::Lam(ev, Box::new(inner));
            proof {
                assert(k2@ == KView::Lam(evw, Box::new(innerw)));
            }
            let ghost k2w = k2@;
            let a_out = t_k(*a, k2, gen);
            let ghost a_outw = a_out@;
            let k1 = KExpr::Lam(fv, Box::new(a_out));
            proof {
                assert(k1@ == KView::Lam(fvw, Box::new(a_outw)));
            }
            let ghost k1w = k1@;
            let r = t_k(*f, k1, gen);
            proof {
                assert(a_outw == spec_t_k(aw, k2w, n + 3));
                assert(r@ == spec_t_k(fw, k1w, n + 3 + fuel_t_k(aw)));
                assert(r@ == spec_t_k(expr@, kw, n));
            }
            r
        },
        e => CCall::KCall(Box::new(k), Box::new(m(e, gen))),
    }
}

/// The kernel's entry point: transform the surface expression `e` into a
/// CPS call that applies `halt` to the value of `e`.
pub fn cps(e: Expr, halt: KExpr, gen: &mut Gen) -> (r: CCall)
    requires
        old(gen).next + fuel_t_k(e@) <= u64::MAX,
    ensures
        r@ == spec_cps(e@, halt@, old(gen).next as nat),
        final(gen).next == old(gen).next + fuel_t_k(e@),
{
    t_k(e, halt, gen)
}

} // verus!
