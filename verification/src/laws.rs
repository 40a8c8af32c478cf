//! The laws this library guarantees of its output.
//!
//! - Tail form and atomic arguments: lowering any call yields a flat tree in
//!   which every lambda body is exactly one call and every operand of a call
//!   is atomic ([`lemma_lower_tail_form`]).  The CPS grammar enforces this by
//!   construction, so it holds of every call, in particular of every result
//!   of [`crate::cont_expr::cps`].
//! - Lowering is a homomorphism for pretty-printing: the flat form of a term
//!   prints exactly the same text ([`lemma_pretty_lower_call`]).
//! - Free-variable conservation: the free identifiers of `cps(e, halt)` are
//!   exactly those of `e` together with those of `halt`
//!   ([`lemma_free_conservation`]).
//! - Alpha-stability: alpha-equivalent inputs give alpha-equivalent outputs,
//!   whatever the states of the fresh-name generator
//!   ([`lemma_alpha_stability`], [`lemma_alpha_stability_same_halt`]).

use vstd::prelude::*;

use crate::alpha::{alpha_call, alpha_expr, alpha_k, alpha_u, pair_related};
use crate::cont_expr::{
    fuel_m, fuel_t_c, fuel_t_k, spec_cps, spec_m, spec_t_c, spec_t_k, CallView, KView, UView,
};
use crate::expr::ExprView;
use crate::flat_expr::{spec_lower_call, spec_lower_k, spec_lower_u, FView};
use crate::pretty::{spec_pretty_call, spec_pretty_f, spec_pretty_k, spec_pretty_u};

verus! {

/// A flat expression is atomic when it is a variable, a literal, or a lambda
/// whose body is a single tail call.
pub open spec fn is_atom(f: FView) -> bool
    decreases f, 0int,
{
    match f {
        FView::Var(_) => true,
        FView::Lit(_) => true,
        FView::LamOne(_, b) => is_tail_call(*b),
        FView::LamTwo(_, _, b) => is_tail_call(*b),
        FView::CallOne(_, _) => false,
        FView::CallTwo(_, _, _) => false,
    }
}

/// A flat expression is a tail call when it is a call all of whose operands
/// are atomic — so no call is nested in an operand position, and by
/// [`is_atom`] every lambda body below it is again exactly one tail call.
pub open spec fn is_tail_call(f: FView) -> bool
    decreases f, 1int,
{
    match f {
        FView::CallOne(g, v) => is_atom(*g) && is_atom(*v),
        FView::CallTwo(g, v, c) => is_atom(*g) && is_atom(*v) && is_atom(*c),
        _ => false,
    }
}

/// Lowering a user expression yields an atom.
pub proof fn lemma_lower_u_atom(u: UView)
    ensures
        is_atom(spec_lower_u(u)),
    decreases u,
{
    match u {
        UView::Lam(_x, _k, b) => lemma_lower_tail_form(*b),
        _ => {},
    }
}

/// Lowering a continuation expression yields an atom.
pub proof fn lemma_lower_k_atom(k: KView)
    ensures
        is_atom(spec_lower_k(k)),
    decreases k,
{
    match k {
        KView::Lam(_x, b) => lemma_lower_tail_form(*b),
        _ => {},
    }
}

/// Tail form and atomic arguments: the lowering of any call — in particular
/// of any call produced by the kernel — is a call whose operands are all
/// atomic, and in which every lambda body is again exactly one such call.
pub proof fn lemma_lower_tail_form(c: CallView)
    ensures
        is_tail_call(spec_lower_call(c)),
    decreases c,
{
    match c {
        CallView::UCall(f, v, k) => {
            lemma_lower_u_atom(*f);
            lemma_lower_u_atom(*v);
            lemma_lower_k_atom(*k);
        },
        CallView::KCall(f, v) => {
            lemma_lower_k_atom(*f);
            lemma_lower_u_atom(*v);
        },
    }
}

/// Pretty-printing the lowering of a user expression gives the same text.
pub proof fn lemma_pretty_lower_u(u: UView)
    ensures
        spec_pretty_f(spec_lower_u(u)) == spec_pretty_u(u),
    decreases u,
{
    match u {
        UView::Lam(_x, _k, b) => lemma_pretty_lower_call(*b),
        _ => {},
    }
}

/// Pretty-printing the lowering of a continuation expression gives the same
/// text.
pub proof fn lemma_pretty_lower_k(k: KView)
    ensures
        spec_pretty_f(spec_lower_k(k)) == spec_pretty_k(k),
    decreases k,
{
    match k {
        KView::Lam(_x, b) => lemma_pretty_lower_call(*b),
        _ => {},
    }
}

/// Lowering is a homomorphism for pretty-printing: the flat form of a call
/// prints exactly the same S-expression text as the call itself.
pub proof fn lemma_pretty_lower_call(c: CallView)
    ensures
        spec_pretty_f(spec_lower_call(c)) == spec_pretty_call(c),
    decreases c,
{
    match c {
        CallView::UCall(f, v, k) => {
            lemma_pretty_lower_u(*f);
            lemma_pretty_lower_u(*v);
            lemma_pretty_lower_k(*k);
        },
        CallView::KCall(f, v) => {
            lemma_pretty_lower_k(*f);
            lemma_pretty_lower_u(*v);
        },
    }
}

/// The free identifiers of a surface expression.
pub open spec fn free_expr(e: ExprView) -> Set<nat>
    decreases e,
{
    match e {
        ExprView::Var(x) => Set::empty().insert(x.id),
        ExprView::Lit(_) => Set::empty(),
        ExprView::Lam(x, b) => free_expr(*b).remove(x.id),
        ExprView::App(f, a) => free_expr(*f).union(free_expr(*a)),
    }
}

/// The free identifiers of a user expression.
pub open spec fn free_u(u: UView) -> Set<nat>
    decreases u,
{
    match u {
        UView::Var(x) => Set::empty().insert(x.id),
        UView::Lit(_) => Set::empty(),
        UView::Lam(x, k, b) => free_call(*b).remove(k.id).remove(x.id),
    }
}

/// The free identifiers of a continuation expression.
pub open spec fn free_k(k: KView) -> Set<nat>
    decreases k,
{
    match k {
        KView::Var(x) => Set::empty().insert(x.id),
        KView::Lit(_) => Set::empty(),
        KView::Lam(x, b) => free_call(*b).remove(x.id),
    }
}

/// The free identifiers of a call.
pub open spec fn free_call(c: CallView) -> Set<nat>
    decreases c,
{
    match c {
        CallView::UCall(f, v, k) => free_u(*f).union(free_u(*v)).union(free_k(*k)),
        CallView::KCall(f, v) => free_k(*f).union(free_u(*v)),
    }
}

/// Every identifier of a surface expression — binders included — is below
/// `n`, so identities at or above `n` are fresh for it.
pub open spec fn ids_below_expr(e: ExprView, n: nat) -> bool
    decreases e,
{
    match e {
        ExprView::Var(x) => x.id < n,
        ExprView::Lit(_) => true,
        ExprView::Lam(x, b) => x.id < n && ids_below_expr(*b, n),
        ExprView::App(f, a) => ids_below_expr(*f, n) && ids_below_expr(*a, n),
    }
}

/// Every identifier of a user expression is below `n`.
pub open spec fn ids_below_u(u: UView, n: nat) -> bool
    decreases u,
{
    match u {
        UView::Var(x) => x.id < n,
        UView::Lit(_) => true,
        UView::Lam(x, k, b) => x.id < n && k.id < n && ids_below_call(*b, n),
    }
}

/// Every identifier of a continuation expression is below `n`.
pub open spec fn ids_below_k(k: KView, n: nat) -> bool
    decreases k,
{
    match k {
        KView::Var(x) => x.id < n,
        KView::Lit(_) => true,
        KView::Lam(x, b) => x.id < n && ids_below_call(*b, n),
    }
}

/// Every identifier of a call is below `n`.
pub open spec fn ids_below_call(c: CallView, n: nat) -> bool
    decreases c,
{
    match c {
        CallView::UCall(f, v, k) => ids_below_u(*f, n) && ids_below_u(*v, n) && ids_below_k(
            *k,
            n,
        ),
        CallView::KCall(f, v) => ids_below_k(*f, n) && ids_below_u(*v, n),
    }
}

/// Identifier bounds on surface expressions are monotone.
pub proof fn lemma_ids_below_expr_mono(e: ExprView, n: nat, m: nat)
    requires
        ids_below_expr(e, n),
        n <= m,
    ensures
        ids_below_expr(e, m),
    decreases e,
{
    match e {
        ExprView::Lam(_x, b) => lemma_ids_below_expr_mono(*b, n, m),
        ExprView::App(f, a) => {
            lemma_ids_below_expr_mono(*f, n, m);
            lemma_ids_below_expr_mono(*a, n, m);
        },
        _ => {},
    }
}

/// Identifier bounds on user expressions are monotone.
pub proof fn lemma_ids_below_u_mono(u: UView, n: nat, m: nat)
    requires
        ids_below_u(u, n),
        n <= m,
    ensures
        ids_below_u(u, m),
    decreases u,
{
    match u {
        UView::Lam(_x, _k, b) => lemma_ids_below_call_mono(*b, n, m),
        _ => {},
    }
}

/// Identifier bounds on continuation expressions are monotone.
pub proof fn lemma_ids_below_k_mono(k: KView, n: nat, m: nat)
    requires
        ids_below_k(k, n),
        n <= m,
    ensures
        ids_below_k(k, m),
    decreases k,
{
    match k {
        KView::Lam(_x, b) => lemma_ids_below_call_mono(*b, n, m),
        _ => {},
    }
}

/// Identifier bounds on calls are monotone.
pub proof fn lemma_ids_below_call_mono(c: CallView, n: nat, m: nat)
    requires
        ids_below_call(c, n),
        n <= m,
    ensures
        ids_below_call(c, m),
    decreases c,
{
    match c {
        CallView::UCall(f, v, k) => {
            lemma_ids_below_u_mono(*f, n, m);
            lemma_ids_below_u_mono(*v, n, m);
            lemma_ids_below_k_mono(*k, n, m);
        },
        CallView::KCall(f, v) => {
            lemma_ids_below_k_mono(*f, n, m);
            lemma_ids_below_u_mono(*v, n, m);
        },
    }
}

/// Free identifiers of a surface expression are below any identifier bound.
pub proof fn lemma_free_expr_below(e: ExprView, n: nat)
    requires
        ids_below_expr(e, n),
    ensures
        forall|i: nat| #[trigger] free_expr(e).contains(i) ==> i < n,
    decreases e,
{
    match e {
        ExprView::Lam(x, b) => {
            lemma_free_expr_below(*b, n);
            assert forall|i: nat| #[trigger] free_expr(e).contains(i) implies i < n by {
                assert(free_expr(*b).remove(x.id).contains(i));
                assert(free_expr(*b).contains(i));
            }
        },
        ExprView::App(f, a) => {
            lemma_free_expr_below(*f, n);
            lemma_free_expr_below(*a, n);
            assert forall|i: nat| #[trigger] free_expr(e).contains(i) implies i < n by {
                assert(free_expr(*f).union(free_expr(*a)).contains(i));
            }
        },
        _ => {},
    }
}

/// Free identifiers of a user expression are below any identifier bound.
pub proof fn lemma_free_u_below(u: UView, n: nat)
    requires
        ids_below_u(u, n),
    ensures
        forall|i: nat| #[trigger] free_u(u).contains(i) ==> i < n,
    decreases u,
{
    match u {
        UView::Lam(x, k, b) => {
            lemma_free_call_below(*b, n);
            assert forall|i: nat| #[trigger] free_u(u).contains(i) implies i < n by {
                assert(free_call(*b).remove(k.id).remove(x.id).contains(i));
                assert(free_call(*b).contains(i));
            }
        },
        _ => {},
    }
}

/// Free identifiers of a continuation expression are below any identifier
/// bound.
pub proof fn lemma_free_k_below(k: KView, n: nat)
    requires
        ids_below_k(k, n),
    ensures
        forall|i: nat| #[trigger] free_k(k).contains(i) ==> i < n,
    decreases k,
{
    match k {
        KView::Lam(x, b) => {
            lemma_free_call_below(*b, n);
            assert forall|i: nat| #[trigger] free_k(k).contains(i) implies i < n by {
                assert(free_call(*b).remove(x.id).contains(i));
                assert(free_call(*b).contains(i));
            }
        },
        _ => {},
    }
}

/// Free identifiers of a call are below any identifier bound.
pub proof fn lemma_free_call_below(c: CallView, n: nat)
    requires
        ids_below_call(c, n),
    ensures
        forall|i: nat| #[trigger] free_call(c).contains(i) ==> i < n,
    decreases c,
{
    match c {
        CallView::UCall(f, v, k) => {
            lemma_free_u_below(*f, n);
            lemma_free_u_below(*v, n);
            lemma_free_k_below(*k, n);
            assert forall|i: nat| #[trigger] free_call(c).contains(i) implies i < n by {
                assert(free_u(*f).union(free_u(*v)).union(free_k(*k)).contains(i));
            }
        },
        CallView::KCall(f, v) => {
            lemma_free_k_below(*f, n);
            lemma_free_u_below(*v, n);
            assert forall|i: nat| #[trigger] free_call(c).contains(i) implies i < n by {
                assert(free_k(*f).union(free_u(*v)).contains(i));
            }
        },
    }
}

/// The atomic translation introduces only identifiers at or above `n`, all
/// below `n + fuel_m(e)`, and keeps the free identifiers of its input.
pub proof fn lemma_m_ids_free(e: ExprView, n: nat)
    requires
        !(e is App),
        ids_below_expr(e, n),
    ensures
        ids_below_u(spec_m(e, n), n + fuel_m(e)),
        free_u(spec_m(e, n)) == free_expr(e),
    decreases e, 0int,
{
    match e {
        ExprView::Lam(x, b) => {
            let k = crate::ident::IdentView { id: n, hint: "k"@ };
            let body = spec_t_c(*b, k, n + 1);
            lemma_ids_below_expr_mono(*b, n, n + 1);
            lemma_tc_ids_free(*b, k, n + 1);
            lemma_free_expr_below(*b, n);
            assert(free_call(body) =~= free_expr(*b).insert(n));
            assert(free_u(spec_m(e, n)) =~= free_call(body).remove(n).remove(x.id));
            assert(free_call(body).remove(n) =~= free_expr(*b));
            assert(free_expr(e) =~= free_expr(*b).remove(x.id));
        },
        _ => {},
    }
}

/// Translation under a continuation variable `c` introduces only identifiers
/// at or above `n`, all below `n + fuel_t_c(e)`; its free identifiers are
/// exactly those of `e` together with `c` itself.
pub proof fn lemma_tc_ids_free(e: ExprView, c: crate::ident::IdentView, n: nat)
    requires
        ids_below_expr(e, n),
        c.id < n,
    ensures
        ids_below_call(spec_t_c(e, c, n), n + fuel_t_c(e)),
        free_call(spec_t_c(e, c, n)) == free_expr(e).insert(c.id),
    decreases e, 1int,
{
    match e {
        ExprView::App(f, a) => {
            let fv = crate::ident::IdentView { id: n, hint: "f"@ };
            let ev = crate::ident::IdentView { id: n + 1, hint: "e"@ };
            let inner = CallView::UCall(
                Box::new(UView::Var(fv)),
                Box::new(UView::Var(ev)),
                Box::new(KView::Var(c)),
            );
            let k2 = KView::Lam(ev, Box::new(inner));
            let a_out = spec_t_k(*a, k2, n + 2);
            let k1 = KView::Lam(fv, Box::new(a_out));
            let na = n + 2 + fuel_t_k(*a);

            assert(free_u(UView::Var(fv)) =~= Set::empty().insert(fv.id));
            assert(free_u(UView::Var(ev)) =~= Set::empty().insert(ev.id));
            assert(free_k(KView::Var(c)) =~= Set::empty().insert(c.id));
            assert(free_call(inner) =~= Set::empty().insert(fv.id).insert(ev.id).insert(c.id));
            assert(free_k(k2) =~= free_call(inner).remove(ev.id));
            assert(free_k(k2) =~= Set::empty().insert(fv.id).insert(c.id));

            assert(ids_below_u(UView::Var(fv), n + 2));
            assert(ids_below_u(UView::Var(ev), n + 2));
            assert(ids_below_k(KView::Var(c), n + 2));
            assert(ids_below_call(inner, n + 2));
            assert(ids_below_k(k2, n + 2));

            lemma_ids_below_expr_mono(*a, n, n + 2);
            lemma_tk_ids_free(*a, k2, n + 2);
            lemma_free_expr_below(*a, n);
            assert(free_call(a_out) == free_expr(*a).union(free_k(k2)));
            assert(free_k(k1) =~= free_call(a_out).remove(fv.id));
            assert(free_k(k1) =~= free_expr(*a).insert(c.id));
            assert(ids_below_k(k1, na));

            lemma_ids_below_expr_mono(*f, n, na);
            lemma_tk_ids_free(*f, k1, na);
            lemma_free_expr_below(*f, n);
            assert(free_call(spec_t_c(e, c, n)) =~= free_expr(*f).union(
                free_expr(*a).insert(c.id),
            ));
            assert(free_expr(e) =~= free_expr(*f).union(free_expr(*a)));
            assert(free_call(spec_t_c(e, c, n)) =~= free_expr(e).insert(c.id));
            assert(na + fuel_t_k(*f) == n + fuel_t_c(e));
        },
        _ => {
            lemma_m_ids_free(e, n);
            assert(spec_t_c(e, c, n) == CallView::KCall(
                Box::new(KView::Var(c)),
                Box::new(spec_m(e, n)),
            ));
            assert(fuel_t_c(e) == fuel_m(e));
            assert(ids_below_call(spec_t_c(e, c, n), n + fuel_t_c(e)));
            assert(free_call(spec_t_c(e, c, n)) =~= free_expr(e).insert(c.id));
        },
    }
}

/// Translation under a reified continuation `k` introduces only identifiers
/// at or above `n`, all below `n + fuel_t_k(e)`; its free identifiers are
/// exactly those of `e` together with those of `k`.
pub proof fn lemma_tk_ids_free(e: ExprView, k: KView, n: nat)
    requires
        ids_below_expr(e, n),
        ids_below_k(k, n),
    ensures
        ids_below_call(spec_t_k(e, k, n), n + fuel_t_k(e)),
        free_call(spec_t_k(e, k, n)) == free_expr(e).union(free_k(k)),
    decreases e, 1int,
{
    match e {
        ExprView::App(f, a) => {
            let rv = crate::ident::IdentView { id: n, hint: "rv"@ };
            let fv = crate::ident::IdentView { id: n + 1, hint: "f"@ };
            let ev = crate::ident::IdentView { id: n + 2, hint: "e"@ };
            let cbody = CallView::KCall(Box::new(k), Box::new(UView::Var(rv)));
            let cont = KView::Lam(rv, Box::new(cbody));
            let inner = CallView::UCall(
                Box::new(UView::Var(fv)),
                Box::new(UView::Var(ev)),
                Box::new(cont),
            );
            let k2 = KView::Lam(ev, Box::new(inner));
            let a_out = spec_t_k(*a, k2, n + 3);
            let k1 = KView::Lam(fv, Box::new(a_out));
            let na = n + 3 + fuel_t_k(*a);

            lemma_free_k_below(k, n);
            assert(free_u(UView::Var(rv)) =~= Set::empty().insert(rv.id));
            assert(free_call(cbody) =~= free_k(k).insert(rv.id));
            assert(free_k(cont) =~= free_call(cbody).remove(rv.id));
            assert(free_k(cont) =~= free_k(k));
            assert(free_u(UView::Var(fv)) =~= Set::empty().insert(fv.id));
            assert(free_u(UView::Var(ev)) =~= Set::empty().insert(ev.id));
            assert(free_call(inner) =~= free_k(k).insert(fv.id).insert(ev.id));
            assert(free_k(k2) =~= free_call(inner).remove(ev.id));
            assert(free_k(k2) =~= free_k(k).insert(fv.id));

            lemma_ids_below_k_mono(k, n, n + 3);
            assert(ids_below_call(cbody, n + 3));
            assert(ids_below_k(cont, n + 3));
            assert(ids_below_u(UView::Var(fv), n + 3));
            assert(ids_below_u(UView::Var(ev), n + 3));
            assert(ids_below_call(inner, n + 3));
            assert(ids_below_k(k2, n + 3));

            lemma_ids_below_expr_mono(*a, n, n + 3);
            lemma_tk_ids_free(*a, k2, n + 3);
            lemma_free_expr_below(*a, n);
            assert(free_call(a_out) == free_expr(*a).union(free_k(k2)));
            assert(free_k(k1) =~= free_call(a_out).remove(fv.id));
            assert(free_k(k1) =~= free_expr(*a).union(free_k(k)));
            assert(ids_below_k(k1, na));

            lemma_ids_below_expr_mono(*f, n, na);
            lemma_tk_ids_free(*f, k1, na);
            lemma_free_expr_below(*f, n);
            assert(free_call(spec_t_k(e, k, n)) =~= free_expr(*f).union(
                free_expr(*a).union(free_k(k)),
            ));
            assert(free_expr(e) =~= free_expr(*f).union(free_expr(*a)));
            assert(free_call(spec_t_k(e, k, n)) =~= free_expr(e).union(free_k(k)));
            assert(spec_t_k(e, k, n) == spec_t_k(*f, k1, na));
            assert(na + fuel_t_k(*f) == n + fuel_t_k(e));
            assert(ids_below_call(spec_t_k(e, k, n), n + fuel_t_k(e)));
        },
        _ => {
            lemma_m_ids_free(e, n);
            lemma_ids_below_k_mono(k, n, n + fuel_t_k(e));
            assert(spec_t_k(e, k, n) == CallView::KCall(Box::new(k), Box::new(spec_m(e, n))));
            assert(fuel_t_k(e) == fuel_m(e));
            assert(ids_below_call(spec_t_k(e, k, n), n + fuel_t_k(e)));
            assert(free_call(spec_t_k(e, k, n)) =~= free_expr(e).union(free_k(k)));
        },
    }
}

/// Free-variable conservation: when every identifier of `e` and `halt` was
/// issued before `n`, the free identifiers of `cps(e, halt)` are exactly the
/// free identifiers of `e` together with those of `halt`.
pub proof fn lemma_free_conservation(e: ExprView, halt: KView, n: nat)
    requires
        ids_below_expr(e, n),
        ids_below_k(halt, n),
    ensures
        free_call(spec_cps(e, halt, n)) == free_expr(e).union(free_k(halt)),
{
    lemma_tk_ids_free(e, halt, n);
}

/// Pushing a pair of identities that are not the ones asked about does not
/// change whether two identities are related.
pub proof fn lemma_pair_push(env: Seq<(nat, nat)>, x: nat, y: nat, a: nat, b: nat)
    requires
        x != a,
        y != b,
    ensures
        pair_related(env.push((a, b)), x, y) == pair_related(env, x, y),
{
    assert(env.push((a, b)).drop_last() =~= env);
}

/// Inserting a pair of identities anywhere below the top of the environment
/// does not change whether two other identities are related.
pub proof fn lemma_pair_insert(
    env1: Seq<(nat, nat)>,
    env2: Seq<(nat, nat)>,
    a: nat,
    b: nat,
    x: nat,
    y: nat,
)
    requires
        x != a,
        y != b,
    ensures
        pair_related(env1.push((a, b)) + env2, x, y) == pair_related(env1 + env2, x, y),
    decreases env2.len(),
{
    if env2.len() == 0 {
        assert(env1.push((a, b)) + env2 =~= env1.push((a, b)));
        assert(env1 + env2 =~= env1);
        lemma_pair_push(env1, x, y, a, b);
    } else {
        let p = env2.last();
        assert((env1.push((a, b)) + env2).last() == p);
        assert((env1 + env2).last() == p);
        assert((env1.push((a, b)) + env2).drop_last() =~= env1.push((a, b)) + env2.drop_last());
        assert((env1 + env2).drop_last() =~= env1 + env2.drop_last());
        if p.0 == x || p.1 == y {
        } else {
            lemma_pair_insert(env1, env2.drop_last(), a, b, x, y);
        }
    }
}

/// Inserting a pair of identities fresh for both surface expressions does
/// not change their alpha relation.
pub proof fn lemma_alpha_expr_insert(
    t1: ExprView,
    t2: ExprView,
    env1: Seq<(nat, nat)>,
    env2: Seq<(nat, nat)>,
    a: nat,
    b: nat,
    n1: nat,
    n2: nat,
)
    requires
        ids_below_expr(t1, n1),
        a >= n1,
        ids_below_expr(t2, n2),
        b >= n2,
    ensures
        alpha_expr(t1, t2, env1.push((a, b)) + env2) == alpha_expr(t1, t2, env1 + env2),
    decreases t1,
{
    match (t1, t2) {
        (ExprView::Var(x), ExprView::Var(y)) => {
            lemma_pair_insert(env1, env2, a, b, x.id, y.id);
        },
        (ExprView::Lam(x, b1), ExprView::Lam(y, b2)) => {
            assert((env1.push((a, b)) + env2).push((x.id, y.id)) =~= env1.push((a, b))
                + env2.push((x.id, y.id)));
            assert((env1 + env2).push((x.id, y.id)) =~= env1 + env2.push((x.id, y.id)));
            lemma_alpha_expr_insert(*b1, *b2, env1, env2.push((x.id, y.id)), a, b, n1, n2);
        },
        (ExprView::App(f1, a1), ExprView::App(f2, a2)) => {
            lemma_alpha_expr_insert(*f1, *f2, env1, env2, a, b, n1, n2);
            lemma_alpha_expr_insert(*a1, *a2, env1, env2, a, b, n1, n2);
        },
        _ => {},
    }
}

/// Inserting a pair of identities fresh for both user expressions does not
/// change their alpha relation.
pub proof fn lemma_alpha_u_insert(
    t1: UView,
    t2: UView,
    env1: Seq<(nat, nat)>,
    env2: Seq<(nat, nat)>,
    a: nat,
    b: nat,
    n1: nat,
    n2: nat,
)
    requires
        ids_below_u(t1, n1),
        a >= n1,
        ids_below_u(t2, n2),
        b >= n2,
    ensures
        alpha_u(t1, t2, env1.push((a, b)) + env2) == alpha_u(t1, t2, env1 + env2),
    decreases t1,
{
    match (t1, t2) {
        (UView::Var(x), UView::Var(y)) => {
            lemma_pair_insert(env1, env2, a, b, x.id, y.id);
        },
        (UView::Lam(x1, k1, b1), UView::Lam(x2, k2, b2)) => {
            let env2x = env2.push((x1.id, x2.id)).push((k1.id, k2.id));
            assert((env1.push((a, b)) + env2).push((x1.id, x2.id)).push((k1.id, k2.id))
                =~= env1.push((a, b)) + env2x);
            assert((env1 + env2).push((x1.id, x2.id)).push((k1.id, k2.id)) =~= env1 + env2x);
            lemma_alpha_call_insert(*b1, *b2, env1, env2x, a, b, n1, n2);
        },
        _ => {},
    }
}

/// Inserting a pair of identities fresh for both continuation expressions
/// does not change their alpha relation.
pub proof fn lemma_alpha_k_insert(
    t1: KView,
    t2: KView,
    env1: Seq<(nat, nat)>,
    env2: Seq<(nat, nat)>,
    a: nat,
    b: nat,
    n1: nat,
    n2: nat,
)
    requires
        ids_below_k(t1, n1),
        a >= n1,
        ids_below_k(t2, n2),
        b >= n2,
    ensures
        alpha_k(t1, t2, env1.push((a, b)) + env2) == alpha_k(t1, t2, env1 + env2),
    decreases t1,
{
    match (t1, t2) {
        (KView::Var(x), KView::Var(y)) => {
            lemma_pair_insert(env1, env2, a, b, x.id, y.id);
        },
        (KView::Lam(x1, b1), KView::Lam(x2, b2)) => {
            let env2x = env2.push((x1.id, x2.id));
            assert((env1.push((a, b)) + env2).push((x1.id, x2.id)) =~= env1.push((a, b))
                + env2x);
            assert((env1 + env2).push((x1.id, x2.id)) =~= env1 + env2x);
            lemma_alpha_call_insert(*b1, *b2, env1, env2x, a, b, n1, n2);
        },
        _ => {},
    }
}

/// Inserting a pair of identities fresh for both calls does not change
/// their alpha relation.
pub proof fn lemma_alpha_call_insert(
    t1: CallView,
    t2: CallView,
    env1: Seq<(nat, nat)>,
    env2: Seq<(nat, nat)>,
    a: nat,
    b: nat,
    n1: nat,
    n2: nat,
)
    requires
        ids_below_call(t1, n1),
        a >= n1,
        ids_below_call(t2, n2),
        b >= n2,
    ensures
        alpha_call(t1, t2, env1.push((a, b)) + env2) == alpha_call(t1, t2, env1 + env2),
    decreases t1,
{
    match (t1, t2) {
        (CallView::UCall(f1, v1, k1), CallView::UCall(f2, v2, k2)) => {
            lemma_alpha_u_insert(*f1, *f2, env1, env2, a, b, n1, n2);
            lemma_alpha_u_insert(*v1, *v2, env1, env2, a, b, n1, n2);
            lemma_alpha_k_insert(*k1, *k2, env1, env2, a, b, n1, n2);
        },
        (CallView::KCall(f1, v1), CallView::KCall(f2, v2)) => {
            lemma_alpha_k_insert(*f1, *f2, env1, env2, a, b, n1, n2);
            lemma_alpha_u_insert(*v1, *v2, env1, env2, a, b, n1, n2);
        },
        _ => {},
    }
}

/// Pushing a pair on top of the environment, fresh for both continuation
/// expressions, preserves their alpha relation.
pub proof fn lemma_alpha_k_push(t1: KView, t2: KView, env: Seq<(nat, nat)>, a: nat, b: nat, n1: nat, n2: nat)
    requires
        alpha_k(t1, t2, env),
        ids_below_k(t1, n1),
        a >= n1,
        ids_below_k(t2, n2),
        b >= n2,
    ensures
        alpha_k(t1, t2, env.push((a, b))),
{
    lemma_alpha_k_insert(t1, t2, env, Seq::empty(), a, b, n1, n2);
    assert(env.push((a, b)) + Seq::<(nat, nat)>::empty() =~= env.push((a, b)));
    assert(env + Seq::<(nat, nat)>::empty() =~= env);
}

/// Pushing a pair on top of the environment, fresh for both surface
/// expressions, preserves their alpha relation.
pub proof fn lemma_alpha_expr_push(
    t1: ExprView,
    t2: ExprView,
    env: Seq<(nat, nat)>,
    a: nat,
    b: nat,
    n1: nat,
    n2: nat,
)
    requires
        alpha_expr(t1, t2, env),
        ids_below_expr(t1, n1),
        a >= n1,
        ids_below_expr(t2, n2),
        b >= n2,
    ensures
        alpha_expr(t1, t2, env.push((a, b))),
{
    lemma_alpha_expr_insert(t1, t2, env, Seq::empty(), a, b, n1, n2);
    assert(env.push((a, b)) + Seq::<(nat, nat)>::empty() =~= env.push((a, b)));
    assert(env + Seq::<(nat, nat)>::empty() =~= env);
}

/// The atomic translation sends alpha-related trivial inputs to
/// alpha-related user expressions, whatever the generator states.
pub proof fn lemma_alpha_m(e1: ExprView, e2: ExprView, n1: nat, n2: nat, env: Seq<(nat, nat)>)
    requires
        !(e1 is App),
        alpha_expr(e1, e2, env),
        ids_below_expr(e1, n1),
        ids_below_expr(e2, n2),
    ensures
        alpha_u(spec_m(e1, n1), spec_m(e2, n2), env),
    decreases e1, 0int,
{
    match (e1, e2) {
        (ExprView::Lam(x1, b1), ExprView::Lam(x2, b2)) => {
            let c1 = crate::ident::IdentView { id: n1, hint: "k"@ };
            let c2 = crate::ident::IdentView { id: n2, hint: "k"@ };
            let envx = env.push((x1.id, x2.id));
            let envk = envx.push((n1, n2));
            lemma_alpha_expr_push(*b1, *b2, envx, n1, n2, n1, n2);
            assert(pair_related(envk, n1, n2));
            lemma_ids_below_expr_mono(*b1, n1, n1 + 1);
            lemma_ids_below_expr_mono(*b2, n2, n2 + 1);
            lemma_alpha_tc(*b1, *b2, c1, c2, n1 + 1, n2 + 1, envk);
            assert(spec_m(e1, n1) == UView::Lam(x1, c1, Box::new(spec_t_c(*b1, c1, n1 + 1))));
            assert(spec_m(e2, n2) == UView::Lam(x2, c2, Box::new(spec_t_c(*b2, c2, n2 + 1))));
        },
        _ => {},
    }
}

/// Translation under related continuation variables sends alpha-related
/// inputs to alpha-related calls, whatever the generator states.
pub proof fn lemma_alpha_tc(
    e1: ExprView,
    e2: ExprView,
    c1: crate::ident::IdentView,
    c2: crate::ident::IdentView,
    n1: nat,
    n2: nat,
    env: Seq<(nat, nat)>,
)
    requires
        alpha_expr(e1, e2, env),
        pair_related(env, c1.id, c2.id),
        ids_below_expr(e1, n1),
        c1.id < n1,
        ids_below_expr(e2, n2),
        c2.id < n2,
    ensures
        alpha_call(spec_t_c(e1, c1, n1), spec_t_c(e2, c2, n2), env),
    decreases e1, 1int,
{
    match (e1, e2) {
        (ExprView::App(f1, a1), ExprView::App(f2, a2)) => {
            let fv1 = crate::ident::IdentView { id: n1, hint: "f"@ };
            let fv2 = crate::ident::IdentView { id: n2, hint: "f"@ };
            let ev1 = crate::ident::IdentView { id: n1 + 1, hint: "e"@ };
            let ev2 = crate::ident::IdentView { id: n2 + 1, hint: "e"@ };
            let inner1 = CallView::UCall(
                Box::new(UView::Var(fv1)),
                Box::new(UView::Var(ev1)),
                Box::new(KView::Var(c1)),
            );
            let inner2 = CallView::UCall(
                Box::new(UView::Var(fv2)),
                Box::new(UView::Var(ev2)),
                Box::new(KView::Var(c2)),
            );
            let k21 = KView::Lam(ev1, Box::new(inner1));
            let k22 = KView::Lam(ev2, Box::new(inner2));
            let a_out1 = spec_t_k(*a1, k21, n1 + 2);
            let a_out2 = spec_t_k(*a2, k22, n2 + 2);
            let kf1 = KView::Lam(fv1, Box::new(a_out1));
            let kf2 = KView::Lam(fv2, Box::new(a_out2));
            let na1 = n1 + 2 + fuel_t_k(*a1);
            let na2 = n2 + 2 + fuel_t_k(*a2);
            let envf = env.push((n1, n2));
            let enve = envf.push((n1 + 1, n2 + 1));

            assert(pair_related(envf, n1, n2));
            lemma_pair_push(envf, n1, n2, n1 + 1, n2 + 1);
            assert(pair_related(enve, n1 + 1, n2 + 1));
            lemma_pair_push(env, c1.id, c2.id, n1, n2);
            lemma_pair_push(envf, c1.id, c2.id, n1 + 1, n2 + 1);
            assert(pair_related(enve, c1.id, c2.id));
            assert(alpha_call(inner1, inner2, enve));
            assert(alpha_k(k21, k22, envf));

            lemma_alpha_expr_push(*a1, *a2, env, n1, n2, n1, n2);
            lemma_ids_below_expr_mono(*a1, n1, n1 + 2);
            lemma_ids_below_expr_mono(*a2, n2, n2 + 2);
            assert(ids_below_call(inner1, n1 + 2));
            assert(ids_below_k(k21, n1 + 2));
            assert(ids_below_call(inner2, n2 + 2));
            assert(ids_below_k(k22, n2 + 2));
            lemma_alpha_tk(*a1, *a2, k21, k22, n1 + 2, n2 + 2, envf);
            assert(alpha_k(kf1, kf2, env));

            lemma_tk_ids_free(*a1, k21, n1 + 2);
            lemma_tk_ids_free(*a2, k22, n2 + 2);
            assert(ids_below_k(kf1, na1));
            assert(ids_below_k(kf2, na2));
            lemma_ids_below_expr_mono(*f1, n1, na1);
            lemma_ids_below_expr_mono(*f2, n2, na2);
            lemma_alpha_tk(*f1, *f2, kf1, kf2, na1, na2, env);
            assert(spec_t_c(e1, c1, n1) == spec_t_k(*f1, kf1, na1));
            assert(spec_t_c(e2, c2, n2) == spec_t_k(*f2, kf2, na2));
        },
        _ => {
            lemma_alpha_m(e1, e2, n1, n2, env);
            assert(alpha_k(KView::Var(c1), KView::Var(c2), env));
            assert(spec_t_c(e1, c1, n1) == CallView::KCall(
                Box::new(KView::Var(c1)),
                Box::new(spec_m(e1, n1)),
            ));
            assert(spec_t_c(e2, c2, n2) == CallView::KCall(
                Box::new(KView::Var(c2)),
                Box::new(spec_m(e2, n2)),
            ));
        },
    }
}

/// Translation under alpha-related reified continuations sends
/// alpha-related inputs to alpha-related calls, whatever the generator
/// states.
pub proof fn lemma_alpha_tk(
    e1: ExprView,
    e2: ExprView,
    k1: KView,
    k2: KView,
    n1: nat,
    n2: nat,
    env: Seq<(nat, nat)>,
)
    requires
        alpha_expr(e1, e2, env),
        alpha_k(k1, k2, env),
        ids_below_expr(e1, n1),
        ids_below_k(k1, n1),
        ids_below_expr(e2, n2),
        ids_below_k(k2, n2),
    ensures
        alpha_call(spec_t_k(e1, k1, n1), spec_t_k(e2, k2, n2), env),
    decreases e1, 1int,
{
    match (e1, e2) {
        (ExprView::App(f1, a1), ExprView::App(f2, a2)) => {
            let rv1 = crate::ident::IdentView { id: n1, hint: "rv"@ };
            let rv2 = crate::ident::IdentView { id: n2, hint: "rv"@ };
            let fv1 = crate::ident::IdentView { id: n1 + 1, hint: "f"@ };
            let fv2 = crate::ident::IdentView { id: n2 + 1, hint: "f"@ };
            let ev1 = crate::ident::IdentView { id: n1 + 2, hint: "e"@ };
            let ev2 = crate::ident::IdentView { id: n2 + 2, hint: "e"@ };
            let cbody1 = CallView::KCall(Box::new(k1), Box::new(UView::Var(rv1)));
            let cbody2 = CallView::KCall(Box::new(k2), Box::new(UView::Var(rv2)));
            let cont1 = KView::Lam(rv1, Box::new(cbody1));
            let cont2 = KView::Lam(rv2, Box::new(cbody2));
            let inner1 = CallView::UCall(
                Box::new(UView::Var(fv1)),
                Box::new(UView::Var(ev1)),
                Box::new(cont1),
            );
            let inner2 = CallView::UCall(
                Box::new(UView::Var(fv2)),
                Box::new(UView::Var(ev2)),
                Box::new(cont2),
            );
            let k21 = KView::Lam(ev1, Box::new(inner1));
            let k22 = KView::Lam(ev2, Box::new(inner2));
            let a_out1 = spec_t_k(*a1, k21, n1 + 3);
            let a_out2 = spec_t_k(*a2, k22, n2 + 3);
            let kf1 = KView::Lam(fv1, Box::new(a_out1));
            let kf2 = KView::Lam(fv2, Box::new(a_out2));
            let na1 = n1 + 3 + fuel_t_k(*a1);
            let na2 = n2 + 3 + fuel_t_k(*a2);
            let envf = env.push((n1 + 1, n2 + 1));
            let enve = envf.push((n1 + 2, n2 + 2));
            let envr = enve.push((n1, n2));

            lemma_alpha_k_push(k1, k2, env, n1 + 1, n2 + 1, n1, n2);
            lemma_alpha_k_push(k1, k2, envf, n1 + 2, n2 + 2, n1, n2);
            lemma_alpha_k_push(k1, k2, enve, n1, n2, n1, n2);
            assert(pair_related(envr, n1, n2));
            assert(alpha_call(cbody1, cbody2, envr));
            assert(alpha_k(cont1, cont2, enve));
            assert(pair_related(enve, n1 + 2, n2 + 2));
            assert(pair_related(envf, n1 + 1, n2 + 1));
            lemma_pair_push(envf, n1 + 1, n2 + 1, n1 + 2, n2 + 2);
            assert(pair_related(enve, n1 + 1, n2 + 1));
            assert(alpha_call(inner1, inner2, enve));
            assert(alpha_k(k21, k22, envf));

            lemma_alpha_expr_push(*a1, *a2, env, n1 + 1, n2 + 1, n1, n2);
            lemma_ids_below_expr_mono(*a1, n1, n1 + 3);
            lemma_ids_below_expr_mono(*a2, n2, n2 + 3);
            lemma_ids_below_k_mono(k1, n1, n1 + 3);
            lemma_ids_below_k_mono(k2, n2, n2 + 3);
            assert(ids_below_call(cbody1, n1 + 3));
            assert(ids_below_k(cont1, n1 + 3));
            assert(ids_below_call(inner1, n1 + 3));
            assert(ids_below_k(k21, n1 + 3));
            assert(ids_below_call(cbody2, n2 + 3));
            assert(ids_below_k(cont2, n2 + 3));
            assert(ids_below_call(inner2, n2 + 3));
            assert(ids_below_k(k22, n2 + 3));
            lemma_alpha_tk(*a1, *a2, k21, k22, n1 + 3, n2 + 3, envf);
            assert(alpha_k(kf1, kf2, env));

            lemma_tk_ids_free(*a1, k21, n1 + 3);
            lemma_tk_ids_free(*a2, k22, n2 + 3);
            assert(ids_below_k(kf1, na1));
            assert(ids_below_k(kf2, na2));
            lemma_ids_below_expr_mono(*f1, n1, na1);
            lemma_ids_below_expr_mono(*f2, n2, na2);
            lemma_alpha_tk(*f1, *f2, kf1, kf2, na1, na2, env);
            assert(spec_t_k(e1, k1, n1) == spec_t_k(*f1, kf1, na1));
            assert(spec_t_k(e2, k2, n2) == spec_t_k(*f2, kf2, na2));
        },
        _ => {
            lemma_alpha_m(e1, e2, n1, n2, env);
            assert(spec_t_k(e1, k1, n1) == CallView::KCall(
                Box::new(k1),
                Box::new(spec_m(e1, n1)),
            ));
            assert(spec_t_k(e2, k2, n2) == CallView::KCall(
                Box::new(k2),
                Box::new(spec_m(e2, n2)),
            ));
        },
    }
}

/// Alpha-stability: alpha-equivalent surface expressions, transformed under
/// alpha-equivalent halt continuations, give alpha-equivalent CPS calls —
/// the identities the generator hands out do not affect the result up to
/// alpha-equivalence.
pub proof fn lemma_alpha_stability(
    e1: ExprView,
    e2: ExprView,
    halt1: KView,
    halt2: KView,
    n1: nat,
    n2: nat,
)
    requires
        crate::alpha::alpha_eq_expr(e1, e2),
        alpha_k(halt1, halt2, Seq::empty()),
        ids_below_expr(e1, n1),
        ids_below_k(halt1, n1),
        ids_below_expr(e2, n2),
        ids_below_k(halt2, n2),
    ensures
        crate::alpha::alpha_eq_call(spec_cps(e1, halt1, n1), spec_cps(e2, halt2, n2)),
{
    lemma_alpha_tk(e1, e2, halt1, halt2, n1, n2, Seq::empty());
}

/// Alpha-stability for one halt continuation: transforming two
/// alpha-equivalent surface expressions under the same halt gives
/// alpha-equivalent calls, whatever identities the two runs drew.
pub proof fn lemma_alpha_stability_same_halt(
    e1: ExprView,
    e2: ExprView,
    halt: KView,
    n1: nat,
    n2: nat,
)
    requires
        crate::alpha::alpha_eq_expr(e1, e2),
        ids_below_expr(e1, n1),
        ids_below_k(halt, n1),
        ids_below_expr(e2, n2),
        ids_below_k(halt, n2),
    ensures
        crate::alpha::alpha_eq_call(spec_cps(e1, halt, n1), spec_cps(e2, halt, n2)),
{
    lemma_alpha_k_refl(halt, Seq::empty());
    lemma_alpha_stability(e1, e2, halt, halt, n1, n2);
}

/// An all-diagonal environment: every pair relates an identity to itself.
pub open spec fn diag_env(env: Seq<(nat, nat)>) -> bool {
    forall|i: int| 0 <= i < env.len() ==> (#[trigger] env[i]).0 == env[i].1
}

/// Under an all-diagonal environment every identity relates to itself.
pub proof fn lemma_pair_diag(env: Seq<(nat, nat)>, x: nat)
    requires
        diag_env(env),
    ensures
        pair_related(env, x, x),
    decreases env.len(),
{
    if env.len() > 0 {
        assert(env.last() == env[env.len() - 1]);
        assert(diag_env(env.drop_last()));
        lemma_pair_diag(env.drop_last(), x);
    }
}

/// Alpha-equivalence of surface expressions is reflexive.
pub proof fn lemma_alpha_expr_refl(t: ExprView, env: Seq<(nat, nat)>)
    requires
        diag_env(env),
    ensures
        alpha_expr(t, t, env),
    decreases t,
{
    match t {
        ExprView::Var(x) => lemma_pair_diag(env, x.id),
        ExprView::Lam(x, b) => {
            let env2 = env.push((x.id, x.id));
            assert(diag_env(env2));
            lemma_alpha_expr_refl(*b, env2);
        },
        ExprView::App(f, a) => {
            lemma_alpha_expr_refl(*f, env);
            lemma_alpha_expr_refl(*a, env);
        },
        _ => {},
    }
}

/// Alpha-equivalence of user expressions is reflexive.
pub proof fn lemma_alpha_u_refl(t: UView, env: Seq<(nat, nat)>)
    requires
        diag_env(env),
    ensures
        alpha_u(t, t, env),
    decreases t,
{
    match t {
        UView::Var(x) => lemma_pair_diag(env, x.id),
        UView::Lam(x, k, b) => {
            let env2 = env.push((x.id, x.id)).push((k.id, k.id));
            assert(diag_env(env2));
            lemma_alpha_call_refl(*b, env2);
        },
        _ => {},
    }
}

/// Alpha-equivalence of continuation expressions is reflexive.
pub proof fn lemma_alpha_k_refl(t: KView, env: Seq<(nat, nat)>)
    requires
        diag_env(env),
    ensures
        alpha_k(t, t, env),
    decreases t,
{
    match t {
        KView::Var(x) => lemma_pair_diag(env, x.id),
        KView::Lam(x, b) => {
            let env2 = env.push((x.id, x.id));
            assert(diag_env(env2));
            lemma_alpha_call_refl(*b, env2);
        },
        _ => {},
    }
}

/// Alpha-equivalence of calls is reflexive.
pub proof fn lemma_alpha_call_refl(t: CallView, env: Seq<(nat, nat)>)
    requires
        diag_env(env),
    ensures
        alpha_call(t, t, env),
    decreases t,
{
    match t {
        CallView::UCall(f, v, k) => {
            lemma_alpha_u_refl(*f, env);
            lemma_alpha_u_refl(*v, env);
            lemma_alpha_k_refl(*k, env);
        },
        CallView::KCall(f, v) => {
            lemma_alpha_k_refl(*f, env);
            lemma_alpha_u_refl(*v, env);
        },
    }
}

} // verus!
