use cps::cont_expr::{cps, t_k, CCall, KExpr, UExpr};
use cps::expr::Expr;
use cps::flat_expr::FExpr;
use cps::ident::{Gen, Ident};
use cps::literals::{decimal_string, Literal};

fn id(n: u64, hint: &str) -> Ident {
    Ident { id: n, hint: hint.to_string() }
}

fn uv(x: Ident) -> Box<UExpr> {
    Box::new(UExpr::Var(x))
}

fn kv(x: Ident) -> Box<KExpr> {
    Box::new(KExpr::Var(x))
}

fn ul(x: Ident, k: Ident, b: Box<CCall>) -> Box<UExpr> {
    Box::new(UExpr::Lam(x, k, b))
}

fn kl(x: Ident, b: Box<CCall>) -> Box<KExpr> {
    Box::new(KExpr::Lam(x, b))
}

fn uc(f: Box<UExpr>, v: Box<UExpr>, c: Box<KExpr>) -> Box<CCall> {
    Box::new(CCall::UCall(f, v, c))
}

fn kc(f: Box<KExpr>, v: Box<UExpr>) -> Box<CCall> {
    Box::new(CCall::KCall(f, v))
}

/// The standard reification of the halt continuation around a fresh `rv`:
/// `(lambda (rv) (halt rv))`.
fn reified(halt: Ident, rv: Ident) -> Box<KExpr> {
    let rv2 = rv.duplicate();
    kl(rv, kc(kv(halt), uv(rv2)))
}

#[test]
fn identity_scenario() {
    // Input `Lam(x. x)`, halt a free continuation variable.
    let mut gen = Gen::new();
    let x = gen.fresh("x");
    let halt_id = gen.fresh("halt_id");
    let e = Expr::Lam(x.duplicate(), Box::new(Expr::Var(x)));
    let out = cps(e, KExpr::Var(halt_id.duplicate()), &mut gen);

    // Expected: `(halt_id (lambda (x k) (k x)))`, up to alpha-renaming.
    let bx = id(100, "p");
    let bk = id(101, "c");
    let expected = kc(
        kv(halt_id),
        ul(bx.duplicate(), bk.duplicate(), kc(kv(bk), uv(bx))),
    );
    assert!(out.alpha_eq(&expected));
    assert_eq!(out.pretty(), "(halt_id (lambda (x k) (k x)))");
}

#[test]
fn literal_scenario() {
    // Input `Lit(42)`: expected `(halt_id 42)`.
    let mut gen = Gen::new();
    let halt_id = gen.fresh("halt_id");
    let out = cps(
        Expr::Lit(Literal { value: 42 }),
        KExpr::Var(halt_id.duplicate()),
        &mut gen,
    );
    let expected = kc(kv(halt_id), Box::new(UExpr::Lit(Literal { value: 42 })));
    assert!(out.alpha_eq(&expected));
    assert_eq!(out.pretty(), "(halt_id 42)");
}

#[test]
fn simple_application() {
    // Input `App(f, a)` with `f`, `a` free.  The kernel's canonical output
    // binds the translations of the function and argument positions with
    // administrative continuations around the user call
    // `(f a (lambda (rv) (halt_id rv)))`.
    let mut gen = Gen::new();
    let f = gen.fresh("f");
    let a = gen.fresh("a");
    let halt_id = gen.fresh("halt_id");
    let e = Expr::App(
        Box::new(Expr::Var(f.duplicate())),
        Box::new(Expr::Var(a.duplicate())),
    );
    let out = cps(e, KExpr::Var(halt_id.duplicate()), &mut gen);

    let rv = id(100, "rv");
    let fv = id(101, "f");
    let ev = id(102, "e");
    let expected = kc(
        kl(
            fv.duplicate(),
            kc(
                kl(
                    ev.duplicate(),
                    uc(uv(fv), uv(ev), reified(halt_id, rv)),
                ),
                uv(a),
            ),
        ),
        uv(f),
    );
    assert!(out.alpha_eq(&expected));
}

#[test]
fn nested_application() {
    // Input `App(App(f, a), b)`.
    let mut gen = Gen::new();
    let f = gen.fresh("f");
    let a = gen.fresh("a");
    let b = gen.fresh("b");
    let halt_id = gen.fresh("halt_id");
    let e = Expr::App(
        Box::new(Expr::App(
            Box::new(Expr::Var(f.duplicate())),
            Box::new(Expr::Var(a.duplicate())),
        )),
        Box::new(Expr::Var(b.duplicate())),
    );
    let out = cps(e, KExpr::Var(halt_id.duplicate()), &mut gen);

    // Outer application: binders for the value of `App(f, a)` and of `b`.
    let rv1 = id(100, "rv");
    let fv1 = id(101, "f");
    let ev1 = id(102, "e");
    // Inner application: binders for the values of `f` and `a`.
    let rv2 = id(103, "rv");
    let fv2 = id(104, "f");
    let ev2 = id(105, "e");

    let k1o = kl(
        fv1.duplicate(),
        kc(
            kl(
                ev1.duplicate(),
                uc(uv(fv1), uv(ev1), reified(halt_id, rv1)),
            ),
            uv(b),
        ),
    );
    let rv2b = rv2.duplicate();
    let cont2 = kl(rv2, kc(k1o, uv(rv2b)));
    let expected = kc(
        kl(
            fv2.duplicate(),
            kc(
                kl(ev2.duplicate(), uc(uv(fv2), uv(ev2), cont2)),
                uv(a),
            ),
        ),
        uv(f),
    );
    assert!(out.alpha_eq(&expected));
}

#[test]
fn lambda_applied() {
    // Input `App(Lam(x. x), a)`.
    let mut gen = Gen::new();
    let x = gen.fresh("x");
    let a = gen.fresh("a");
    let halt_id = gen.fresh("halt_id");
    let e = Expr::App(
        Box::new(Expr::Lam(x.duplicate(), Box::new(Expr::Var(x)))),
        Box::new(Expr::Var(a.duplicate())),
    );
    let out = cps(e, KExpr::Var(halt_id.duplicate()), &mut gen);

    let rv = id(100, "rv");
    let fv = id(101, "f");
    let ev = id(102, "e");
    let bx = id(103, "x");
    let bk = id(104, "k");
    let bx2 = bx.duplicate();
    let bk2 = bk.duplicate();
    let id_lam = ul(bx, bk, kc(kv(bk2), uv(bx2)));
    let expected = kc(
        kl(
            fv.duplicate(),
            kc(
                kl(
                    ev.duplicate(),
                    uc(uv(fv), uv(ev), reified(halt_id, rv)),
                ),
                uv(a),
            ),
        ),
        id_lam,
    );
    assert!(out.alpha_eq(&expected));
}

#[test]
fn higher_order() {
    // Input `Lam(f. App(f, f))`: inside the lambda the continuation is the
    // lambda's own continuation parameter, referenced by name.
    let mut gen = Gen::new();
    let f = gen.fresh("f");
    let halt_id = gen.fresh("halt_id");
    let e = Expr::Lam(
        f.duplicate(),
        Box::new(Expr::App(
            Box::new(Expr::Var(f.duplicate())),
            Box::new(Expr::Var(f)),
        )),
    );
    let out = cps(e, KExpr::Var(halt_id.duplicate()), &mut gen);

    let bf = id(100, "f");
    let bk = id(101, "k");
    let fv = id(102, "f");
    let ev = id(103, "e");
    let body = kc(
        kl(
            fv.duplicate(),
            kc(
                kl(ev.duplicate(), uc(uv(fv), uv(ev), kv(bk.duplicate()))),
                uv(bf.duplicate()),
            ),
        ),
        uv(bf.duplicate()),
    );
    let expected = kc(kv(halt_id), ul(bf, bk, body));
    assert!(out.alpha_eq(&expected));
}

#[test]
fn alpha_ignores_binder_identities_and_hints() {
    let a1 = id(1, "x");
    let a1b = a1.duplicate();
    let t1 = kc(kv(id(0, "h")), ul(a1, id(2, "k"), kc(kv(id(2, "k")), uv(a1b))));
    let b1 = id(7, "value");
    let b1b = b1.duplicate();
    let t2 = kc(
        kv(id(0, "halt")),
        ul(b1, id(9, "cont"), kc(kv(id(9, "cont")), uv(b1b))),
    );
    assert!(t1.alpha_eq(&t2));
}

#[test]
fn alpha_distinguishes_free_identities() {
    // Free variables are compared by identity, not hint.
    let t1 = kc(kv(id(0, "h")), uv(id(1, "x")));
    let t2 = kc(kv(id(0, "h")), uv(id(2, "x")));
    assert!(!t1.alpha_eq(&t2));
    let t3 = kc(kv(id(0, "renamed")), uv(id(1, "y")));
    assert!(t1.alpha_eq(&t3));
}

#[test]
fn alpha_respects_shadowing() {
    // `Lam(x. Lam(x. x))` is equivalent to `Lam(y. Lam(z. z))`,
    // not to `Lam(y. Lam(z. y))`.
    let x = id(1, "x");
    let e1 = Expr::Lam(
        x.duplicate(),
        Box::new(Expr::Lam(x.duplicate(), Box::new(Expr::Var(x)))),
    );
    let y = id(2, "y");
    let z = id(3, "z");
    let e2 = Expr::Lam(
        y.duplicate(),
        Box::new(Expr::Lam(z.duplicate(), Box::new(Expr::Var(z)))),
    );
    let y2 = id(4, "y");
    let z2 = id(5, "z");
    let e3 = Expr::Lam(
        y2.duplicate(),
        Box::new(Expr::Lam(z2, Box::new(Expr::Var(y2)))),
    );
    assert!(e1.alpha_eq(&e2));
    assert!(!e1.alpha_eq(&e3));
}

#[test]
fn alpha_stability_needs_same_free_variables() {
    // Outputs whose halt continuations carry different identities are not
    // alpha-equivalent: free variables compare by identity.
    let halt1 = id(50, "halt_id");
    let halt2 = id(51, "halt_id");
    let mut gen1 = Gen::new();
    let x = gen1.fresh("x");
    let e1 = Expr::Lam(x.duplicate(), Box::new(Expr::Var(x)));
    let out1 = cps(e1, KExpr::Var(halt1), &mut gen1);

    let mut gen2 = Gen::new();
    let y = gen2.fresh("y");
    let e2 = Expr::Lam(y.duplicate(), Box::new(Expr::Var(y)));
    let out2 = cps(e2, KExpr::Var(halt2), &mut gen2);

    assert!(!out1.alpha_eq(&out2));
}

#[test]
fn alpha_stability_same_halt() {
    // With the same halt identity, alpha-equivalent inputs give
    // alpha-equivalent outputs even though every introduced identifier
    // differs between the two runs.
    let halt = id(1000, "halt_id");
    let mut gen1 = Gen::new();
    let x = gen1.fresh("x");
    let e1 = Expr::Lam(x.duplicate(), Box::new(Expr::Var(x)));
    let out1 = cps(e1, KExpr::Var(halt.duplicate()), &mut gen1);

    let mut gen2 = Gen::new();
    let _a = gen2.fresh("a");
    let _b = gen2.fresh("b");
    let y = gen2.fresh("some_other_name");
    let e2 = Expr::Lam(y.duplicate(), Box::new(Expr::Var(y)));
    let out2 = cps(e2, KExpr::Var(halt), &mut gen2);

    assert!(out1.alpha_eq(&out2));
}

#[test]
fn t_k_matches_cps_entry() {
    let mut gen1 = Gen::new();
    let f = gen1.fresh("f");
    let a = gen1.fresh("a");
    let h = gen1.fresh("halt_id");
    let e1 = Expr::App(
        Box::new(Expr::Var(f.duplicate())),
        Box::new(Expr::Var(a.duplicate())),
    );
    let e2 = Expr::App(Box::new(Expr::Var(f)), Box::new(Expr::Var(a)));
    let mut gen2 = Gen { next: gen1.next };
    let out1 = cps(e1, KExpr::Var(h.duplicate()), &mut gen1);
    let out2 = t_k(e2, KExpr::Var(h), &mut gen2);
    assert!(out1.alpha_eq(&out2));
    assert_eq!(gen1.next, gen2.next);
}

#[test]
fn lowering_is_pretty_homomorphism() {
    // Pretty-printing `lower(x)` gives the same text as pretty-printing `x`.
    let mut gen = Gen::new();
    let x = gen.fresh("x");
    let a = gen.fresh("a");
    let h = gen.fresh("halt_id");
    let e = Expr::App(
        Box::new(Expr::Lam(x.duplicate(), Box::new(Expr::Var(x)))),
        Box::new(Expr::Var(a)),
    );
    let out = cps(e, KExpr::Var(h), &mut gen);
    let text = out.pretty();
    let flat = out.into_fexpr();
    assert_eq!(flat.pretty(), text);
}

#[test]
fn lowering_structure() {
    // `KCall` lowers to `CallOne`, user lambdas to `LamTwo`, continuation
    // lambdas to `LamOne`, `UCall` to `CallTwo`.
    let rv = id(1, "rv");
    let rv2 = rv.duplicate();
    let h = id(0, "h");
    let c = uc(
        uv(id(2, "f")),
        uv(id(3, "a")),
        kl(rv, kc(kv(h), uv(rv2))),
    );
    match c.into_fexpr() {
        FExpr::CallTwo(f, v, k) => {
            assert!(matches!(*f, FExpr::Var(_)));
            assert!(matches!(*v, FExpr::Var(_)));
            match *k {
                FExpr::LamOne(_, body) => {
                    assert!(matches!(*body, FExpr::CallOne(_, _)));
                },
                other => panic!("expected LamOne, got {}", other.pretty()),
            }
        },
        _ => panic!("expected CallTwo"),
    }
}

#[test]
fn user_lambda_lowers_to_lam_two() {
    let bx = id(1, "x");
    let bk = id(2, "k");
    let bx2 = bx.duplicate();
    let bk2 = bk.duplicate();
    let lam = ul(bx, bk, kc(kv(bk2), uv(bx2)));
    match lam.into_fexpr() {
        FExpr::LamTwo(p, k, body) => {
            assert_eq!(p.hint, "x");
            assert_eq!(k.hint, "k");
            assert!(matches!(*body, FExpr::CallOne(_, _)));
        },
        _ => panic!("expected LamTwo"),
    }
}

#[test]
fn decimal_rendering() {
    assert_eq!(decimal_string(0), "0");
    assert_eq!(decimal_string(7), "7");
    assert_eq!(decimal_string(42), "42");
    assert_eq!(decimal_string(100840), "100840");
    assert_eq!(decimal_string(u64::MAX), "18446744073709551615");
    assert_eq!(Literal { value: 42 }.pretty(), "42");
}

#[test]
fn pretty_shapes() {
    // `(f v k)` for user calls, `(f v)` for continuation calls,
    // `(lambda (x) body)` and `(lambda (x k) body)` for the two lambdas.
    let rv = id(1, "rv");
    let rv2 = rv.duplicate();
    let h = id(0, "halt_id");
    let c = uc(uv(id(2, "f")), uv(id(3, "a")), kl(rv, kc(kv(h), uv(rv2))));
    assert_eq!(c.pretty(), "(f a (lambda (rv) (halt_id rv)))");

    let bx = id(4, "x");
    let bk = id(5, "k");
    let bx2 = bx.duplicate();
    let bk2 = bk.duplicate();
    let lam = ul(bx, bk, kc(kv(bk2), uv(bx2)));
    assert_eq!(lam.pretty(), "(lambda (x k) (k x))");
    assert_eq!(UExpr::Lit(Literal { value: 9 }).pretty(), "9");
}

#[test]
fn alpha_on_each_sort() {
    // Scope equality is alpha-equivalence on every sort.
    let x = id(1, "x");
    let x2 = x.duplicate();
    let u1 = ul(x, id(2, "k"), kc(kv(id(2, "k")), uv(x2)));
    let y = id(3, "y");
    let y2 = y.duplicate();
    let u2 = ul(y, id(4, "c"), kc(kv(id(4, "c")), uv(y2)));
    assert!(u1.alpha_eq(&u2));
    assert!(!u1.alpha_eq(&uv(id(1, "x"))));

    let rv = id(5, "rv");
    let rv2 = rv.duplicate();
    let k1 = kl(rv, kc(kv(id(0, "h")), uv(rv2)));
    let sv = id(6, "s");
    let sv2 = sv.duplicate();
    let k2 = kl(sv, kc(kv(id(0, "h")), uv(sv2)));
    assert!(k1.alpha_eq(&k2));
    let tv = id(7, "t");
    let tv2 = tv.duplicate();
    let k3 = kl(tv, kc(kv(id(9, "h")), uv(tv2)));
    assert!(!k1.alpha_eq(&k3));
}

#[test]
fn generator_is_monotonic() {
    let mut gen = Gen::new();
    let a = gen.fresh("a");
    let b = gen.fresh("a");
    let c = gen.fresh("c");
    assert_ne!(a.id, b.id);
    assert_ne!(b.id, c.id);
    assert_ne!(a.id, c.id);
    assert_eq!(a.hint, "a");
    assert_eq!(b.hint, "a");
    assert_eq!(gen.next, 3);
}

#[test]
fn output_free_variables_are_conserved() {
    // The only free identifiers of the output are those of the input and of
    // the halt continuation: every introduced binder is closed.  Check on
    // the printed form: introduced hints appear only bound.
    let mut gen = Gen::new();
    let f = gen.fresh("fun");
    let a = gen.fresh("arg");
    let h = gen.fresh("halt_id");
    let e = Expr::App(
        Box::new(Expr::Var(f.duplicate())),
        Box::new(Expr::Var(a.duplicate())),
    );
    let out = cps(e, KExpr::Var(h.duplicate()), &mut gen);
    // Rebuild the output with all kernel binders renamed: alpha-equivalence
    // must hold precisely because the free variables agree.
    let rv = id(200, "r");
    let fv = id(201, "g");
    let ev = id(202, "w");
    let expected = kc(
        kl(
            fv.duplicate(),
            kc(
                kl(ev.duplicate(), uc(uv(fv), uv(ev), reified(h, rv))),
                uv(a),
            ),
        ),
        uv(f),
    );
    assert!(out.alpha_eq(&expected));
}
