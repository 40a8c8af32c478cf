//! A continuation-passing style (CPS) transformation over a minimal
//! lambda-calculus surface language.
//!
//! The kernel ([`cont_expr::cps`]) turns a direct-style surface expression
//! ([`expr::Expr`]) into a CPS call ([`cont_expr::CCall`]) in which every
//! function call is in tail position and every intermediate result flows
//! through an explicit continuation.  The result can be lowered to a single
//! flat expression sort ([`flat_expr::FExpr`]) and rendered as an
//! S-expression ([`pretty`]).
//!
//! Binders are represented by name: an [`ident::Ident`] carries a
//! generation-unique identity and a display hint, and terms are compared up
//! to alpha-equivalence ([`alpha`]), never by structural equality.  Fresh
//! identities come from an explicit monotonic generator ([`ident::Gen`])
//! threaded through the kernel, so the whole transformation is a function of
//! its input and the generator's state — which is what the contracts say,
//! and what the laws in [`laws`] build on.

pub mod alpha;
pub mod cont_expr;
pub mod expr;
pub mod flat_expr;
pub mod ident;
pub mod laws;
pub mod literals;
pub mod pretty;
