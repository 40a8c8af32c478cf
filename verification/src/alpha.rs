//! Alpha-equivalence of terms.
//!
//! Two terms are alpha-equivalent when they have the same shape, equal
//! literals, free variables with the same identity, and corresponding bound
//! variables — regardless of the identities chosen for their binders and of
//! all display hints.  The relation is defined against an environment of
//! paired binder identities, innermost last, so shadowing resolves to the
//! nearest enclosing pair.
//!
//! Scope equality throughout this library *is* alpha-equivalence: terms are
//! never compared by derived structural equality.

use vstd::prelude::*;

use crate::cont_expr::{CCall, CallView, KExpr, KView, UExpr, UView};
use crate::expr::{Expr, ExprView};

verus! {

/// Identities `x` (left) and `y` (right) name the same variable under `env`:
/// either the innermost pair mentioning either of them pairs them with each
/// other, or neither is bound and they are the same free identity.
pub open spec fn pair_related(env: Seq<(nat, nat)>, x: nat, y: nat) -> bool
    decreases env.len(),
{
    if env.len() == 0 {
        x == y
    } else {
        let p = env.last();
        if p.0 == x || p.1 == y {
            p.0 == x && p.1 == y
        } else {
            pair_related(env.drop_last(), x, y)
        }
    }
}

/// Alpha-equivalence of surface expressions under `env`.
pub open spec fn alpha_expr(a: ExprView, b: ExprView, env: Seq<(nat, nat)>) -> bool
    decreases a,
{
    match (a, b) {
        (ExprView::Var(x), ExprView::Var(y)) => pair_related(env, x.id, y.id),
        (ExprView::Lit(l), ExprView::Lit(m)) => l == m,
        (ExprView::Lam(x, ba), ExprView::Lam(y, bb)) => alpha_expr(
            *ba,
            *bb,
            env.push((x.id, y.id)),
        ),
        (ExprView::App(fa, aa), ExprView::App(fb, ab)) => alpha_expr(*fa, *fb, env)
            && alpha_expr(*aa, *ab, env),
        _ => false,
    }
}

/// Alpha-equivalence of user expressions under `env`.
pub open spec fn alpha_u(a: UView, b: UView, env: Seq<(nat, nat)>) -> bool
    decreases a,
{
    match (a, b) {
        (UView::Var(x), UView::Var(y)) => pair_related(env, x.id, y.id),
        (UView::Lit(l), UView::Lit(m)) => l == m,
        (UView::Lam(xa, ka, ba), UView::Lam(xb, kb, bb)) => alpha_call(
            *ba,
            *bb,
            env.push((xa.id, xb.id)).push((ka.id, kb.id)),
        ),
        _ => false,
    }
}

/// Alpha-equivalence of continuation expressions under `env`.
pub open spec fn alpha_k(a: KView, b: KView, env: Seq<(nat, nat)>) -> bool
    decreases a,
{
    match (a, b) {
        (KView::Var(x), KView::Var(y)) => pair_related(env, x.id, y.id),
        (KView::Lit(l), KView::Lit(m)) => l == m,
        (KView::Lam(xa, ba), KView::Lam(xb, bb)) => alpha_call(
            *ba,
            *bb,
            env.push((xa.id, xb.id)),
        ),
        _ => false,
    }
}

/// Alpha-equivalence of calls under `env`.
pub open spec fn alpha_call(a: CallView, b: CallView, env: Seq<(nat, nat)>) -> bool
    decreases a,
{
    match (a, b) {
        (CallView::UCall(fa, va, ka), CallView::UCall(fb, vb, kb)) => alpha_u(*fa, *fb, env)
            && alpha_u(*va, *vb, env) && alpha_k(*ka, *kb, env),
        (CallView::KCall(fa, va), CallView::KCall(fb, vb)) => alpha_k(*fa, *fb, env)
            && alpha_u(*va, *vb, env),
        _ => false,
    }
}

/// Alpha-equivalence of closed-environment surface expressions.
pub open spec fn alpha_eq_expr(a: ExprView, b: ExprView) -> bool {
    alpha_expr(a, b, Seq::empty())
}

/// Alpha-equivalence of closed-environment calls.
pub open spec fn alpha_eq_call(a: CallView, b: CallView) -> bool {
    alpha_call(a, b, Seq::empty())
}

/// The model of an executable binder-pair environment.
pub open spec fn lift_env(env: Seq<(u64, u64)>) -> Seq<(nat, nat)> {
    env.map_values(|p: (u64, u64)| (p.0 as nat, p.1 as nat))
}

/// Whether `x` and `y` are paired under the top `i` entries of `env`.
fn pair_related_upto(env: &Vec<(u64, u64)>, i: usize, x: u64, y: u64) -> (r: bool)
    requires
        i <= env@.len(),
    ensures
        r == pair_related(lift_env(env@).take(i as int), x as nat, y as nat),
    decreases i,
{
    proof {
        assert(lift_env(env@).len() == env@.len());
    }
    if i == 0 {
        proof {
            assert(lift_env(env@).take(0) =~= Seq::<(nat, nat)>::empty());
        }
        x == y
    } else {
        let p = env[i - 1];
        proof {
            let t = lift_env(env@).take(i as int);
            assert(t.last() == (p.0 as nat, p.1 as nat));
            assert(t.drop_last() =~= lift_env(env@).take(i as int - 1));
        }
        if p.0 == x || p.1 == y {
            p.0 == x && p.1 == y
        } else {
            pair_related_upto(env, i - 1, x, y)
        }
    }
}

/// Whether `x` and `y` are paired under `env`.
fn pair_related_exec(env: &Vec<(u64, u64)>, x: u64, y: u64) -> (r: bool)
    ensures
        r == pair_related(lift_env(env@), x as nat, y as nat),
{
    let n = env.len();
    let r = pair_related_upto(env, n, x, y);
    proof {
        assert(lift_env(env@).take(n as int) =~= lift_env(env@));
    }
    r
}

/// Alpha-comparison of surface expressions under a binder-pair environment.
/// The environment is restored before returning.
fn alpha_env_expr(a: &Expr, b: &Expr, env: &mut Vec<(u64, u64)>) -> (r: bool)
    ensures
        final(env)@ == old(env)@,
        r == alpha_expr(a@, b@, lift_env(old(env)@)),
    decreases a,
{
    match (a, b) {
        (Expr::Var(x), Expr::Var(y)) => pair_related_exec(env, x.id, y.id),
        (Expr::Lit(l), Expr::Lit(m)) => l.value == m.value,
        (Expr::Lam(x, ba), Expr::Lam(y, bb)) => {
            env.push((x.id, y.id));
            proof {
                assert(lift_env(env@) =~= lift_env(old(env)@).push((x.id as nat, y.id as nat)));
            }
            let r = alpha_env_expr(ba, bb, env);
            let _popped = env.pop();
            proof {
                assert(env@ =~= old(env)@);
            }
            r
        },
        (Expr::App(fa, aa), Expr::App(fb, ab)) => {
            let r1 = alpha_env_expr(fa, fb, env);
            let r2 = alpha_env_expr(aa, ab, env);
            r1 && r2
        },
        _ => false,
    }
}

/// Alpha-comparison of user expressions under a binder-pair environment.
fn alpha_env_u(a: &UExpr, b: &UExpr, env: &mut Vec<(u64, u64)>) -> (r: bool)
    ensures
        final(env)@ == old(env)@,
        r == alpha_u(a@, b@, lift_env(old(env)@)),
    decreases a,
{
    match (a, b) {
        (UExpr::Var(x), UExpr::Var(y)) => pair_related_exec(env, x.id, y.id),
        (UExpr::Lit(l), UExpr::Lit(m)) => l.value == m.value,
        (UExpr::Lam(xa, ka, ba), UExpr::Lam(xb, kb, bb)) => {
            env.push((xa.id, xb.id));
            env.push((ka.id, kb.id));
            proof {
                assert(lift_env(env@) =~= lift_env(old(env)@).push(
                    (xa.id as nat, xb.id as nat),
                ).push((ka.id as nat, kb.id as nat)));
            }
            let r = alpha_env_call(ba, bb, env);
            let _popped = env.pop();
            let _popped2 = env.pop();
            proof {
                assert(env@ =~= old(env)@);
            }
            r
        },
        _ => false,
    }
}

/// Alpha-comparison of continuation expressions under a binder-pair
/// environment.
fn alpha_env_k(a: &KExpr, b: &KExpr, env: &mut Vec<(u64, u64)>) -> (r: bool)
    ensures
        final(env)@ == old(env)@,
        r == alpha_k(a@, b@, lift_env(old(env)@)),
    decreases a,
{
    match (a, b) {
        (KExpr::Var(x), KExpr::Var(y)) => pair_related_exec(env, x.id, y.id),
        (KExpr::Lit(l), KExpr::Lit(m)) => l.value == m.value,
        (KExpr::Lam(xa, ba), KExpr::Lam(xb, bb)) => {
            env.push((xa.id, xb.id));
            proof {
                assert(lift_env(env@) =~= lift_env(old(env)@).push((xa.id as nat, xb.id as nat)));
            }
            let r = alpha_env_call(ba, bb, env);
            let _popped = env.pop();
            proof {
                assert(env@ =~= old(env)@);
            }
            r
        },
        _ => false,
    }
}

/// Alpha-comparison of calls under a binder-pair environment.
fn alpha_env_call(a: &CCall, b: &CCall, env: &mut Vec<(u64, u64)>) -> (r: bool)
    ensures
        final(env)@ == old(env)@,
        r == alpha_call(a@, b@, lift_env(old(env)@)),
    decreases a,
{
    match (a, b) {
        (CCall::UCall(fa, va, ka), CCall::UCall(fb, vb, kb)) => {
            let r1 = alpha_env_u(fa, fb, env);
            let r2 = alpha_env_u(va, vb, env);
            let r3 = alpha_env_k(ka, kb, env);
            r1 && r2 && r3
        },
        (CCall::KCall(fa, va), CCall::KCall(fb, vb)) => {
            let r1 = alpha_env_k(fa, fb, env);
            let r2 = alpha_env_u(va, vb, env);
            r1 && r2
        },
        _ => false,
    }
}

impl Expr {
    /// Whether this surface expression is alpha-equivalent to `other`.
    pub fn alpha_eq(&self, other: &Expr) -> (r: bool)
        ensures
            r == alpha_eq_expr(self@, other@),
    {
        let mut env: Vec<(u64, u64)> = Vec::new();
        let r = alpha_env_expr(self, other, &mut env);
        proof {
            assert(lift_env(Seq::<(u64, u64)>::empty()) =~= Seq::<(nat, nat)>::empty());
        }
        r
    }
}

impl UExpr {
    /// Whether this user expression is alpha-equivalent to `other`.
    pub fn alpha_eq(&self, other: &UExpr) -> (r: bool)
        ensures
            r == alpha_u(self@, other@, Seq::empty()),
    {
        let mut env: Vec<(u64, u64)> = Vec::new();
        let r = alpha_env_u(self, other, &mut env);
        proof {
            assert(lift_env(Seq::<(u64, u64)>::empty()) =~= Seq::<(nat, nat)>::empty());
        }
        r
    }
}

impl KExpr {
    /// Whether this continuation expression is alpha-equivalent to `other`.
    pub fn alpha_eq(&self, other: &KExpr) -> (r: bool)
        ensures
            r == alpha_k(self@, other@, Seq::empty()),
    {
        let mut env: Vec<(u64, u64)> = Vec::new();
        let r = alpha_env_k(self, other, &mut env);
        proof {
            assert(lift_env(Seq::<(u64, u64)>::empty()) =~= Seq::<(nat, nat)>::empty());
        }
        r
    }
}

impl CCall {
    /// Whether this call is alpha-equivalent to `other`.
    pub fn alpha_eq(&self, other: &CCall) -> (r: bool)
        ensures
            r == alpha_eq_call(self@, other@),
    {
        let mut env: Vec<(u64, u64)> = Vec::new();
        let r = alpha_env_call(self, other, &mut env);
        proof {
            assert(lift_env(Seq::<(u64, u64)>::empty()) =~= Seq::<(nat, nat)>::empty());
        }
        r
    }
}

} // verus!
