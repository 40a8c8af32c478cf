//! Rendering of CPS terms and flat terms as S-expression text.
//!
//! Calls print as `(f v k)` and `(f v)`, user lambdas as
//! `(lambda (x k) body)`, continuation lambdas as `(lambda (x) body)`;
//! variables print their hint and literals print in decimal.  The text is
//! produced on a single line; layout (line wrapping, colour) is presentation
//! only and belongs to a driver, which must not change this text content.

use vstd::prelude::*;
use vstd::string::StringExecFns;

use crate::cont_expr::{CCall, CallView, KExpr, KView, UExpr, UView};
use crate::flat_expr::{FExpr, FView};
use crate::literals::spec_decimal;

verus! {

/// Text of a user expression.
pub open spec fn spec_pretty_u(u: UView) -> Seq<char>
    decreases u,
{
    match u {
        UView::Var(x) => x.hint,
        UView::Lit(l) => spec_decimal(l),
        UView::Lam(x, k, b) => "(lambda ("@ + x.hint + " "@ + k.hint + ") "@
            + spec_pretty_call(*b) + ")"@,
    }
}

/// Text of a continuation expression.
pub open spec fn spec_pretty_k(k: KView) -> Seq<char>
    decreases k,
{
    match k {
        KView::Var(x) => x.hint,
        KView::Lit(l) => spec_decimal(l),
        KView::Lam(x, b) => "(lambda ("@ + x.hint + ") "@ + spec_pretty_call(*b) + ")"@,
    }
}

/// Text of a call.
pub open spec fn spec_pretty_call(c: CallView) -> Seq<char>
    decreases c,
{
    match c {
        CallView::UCall(f, v, k) => "("@ + spec_pretty_u(*f) + " "@ + spec_pretty_u(*v) + " "@
            + spec_pretty_k(*k) + ")"@,
        CallView::KCall(f, v) => "("@ + spec_pretty_k(*f) + " "@ + spec_pretty_u(*v) + ")"@,
    }
}

/// Text of a flat expression.
pub open spec fn spec_pretty_f(e: FView) -> Seq<char>
    decreases e,
{
    match e {
        FView::Var(x) => x.hint,
        FView::Lit(l) => spec_decimal(l),
        FView::LamOne(x, b) => "(lambda ("@ + x.hint + ") "@ + spec_pretty_f(*b) + ")"@,
        FView::LamTwo(x, k, b) => "(lambda ("@ + x.hint + " "@ + k.hint + ") "@
            + spec_pretty_f(*b) + ")"@,
        FView::CallOne(f, v) => "("@ + spec_pretty_f(*f) + " "@ + spec_pretty_f(*v) + ")"@,
        FView::CallTwo(f, v, c) => "("@ + spec_pretty_f(*f) + " "@ + spec_pretty_f(*v) + " "@
            + spec_pretty_f(*c) + ")"@,
    }
}

impl UExpr {
    /// Render this user expression as S-expression text.
    pub fn pretty(&self) -> (r: String)
        ensures
            r@ == spec_pretty_u(self@),
        decreases self,
    {
        match self {
            UExpr::Var(x) => x.hint.clone(),
            UExpr::Lit(l) => l.pretty(),
            UExpr::Lam(x, k, b) => {
                let mut s = String::from_str("(lambda (");
                s.append(x.hint.as_str());
                s.append(" ");
                s.append(k.hint.as_str());
                s.append(") ");
                let body = b.pretty();
                s.append(body.as_str());
                s.append(")");
                proof {
                    assert(s@ =~= spec_pretty_u(self@));
                }
                s
            },
        }
    }
}

impl KExpr {
    /// Render this continuation expression as S-expression text.
    pub fn pretty(&self) -> (r: String)
        ensures
            r@ == spec_pretty_k(self@),
        decreases self,
    {
        match self {
            KExpr::Var(x) => x.hint.clone(),
            KExpr::Lit(l) => l.pretty(),
            KExpr::Lam(x, b) => {
                let mut s = String::from_str("(lambda (");
                s.append(x.hint.as_str());
                s.append(") ");
                let body = b.pretty();
                s.append(body.as_str());
                s.append(")");
                proof {
                    assert(s@ =~= spec_pretty_k(self@));
                }
                s
            },
        }
    }
}

impl CCall {
    /// Render this call as S-expression text.
    pub fn pretty(&self) -> (r: String)
        ensures
            r@ == spec_pretty_call(self@),
        decreases self,
    {
        match self {
            CCall::UCall(f, v, k) => {
                let mut s = String::from_str("(");
                let fp = f.pretty();
                s.append(fp.as_str());
                s.append(" ");
                let vp = v.pretty();
                s.append(vp.as_str());
                s.append(" ");
                let kp = k.pretty();
                s.append(kp.as_str());
                s.append(")");
                proof {
                    assert(s@ =~= spec_pretty_call(self@));
                }
                s
            },
            CCall::KCall(f, v) => {
                let mut s = String::from_str("(");
                let fp = f.pretty();
                s.append(fp.as_str());
                s.append(" ");
                let vp = v.pretty();
                s.append(vp.as_str());
                s.append(")");
                proof {
                    assert(s@ =~= spec_pretty_call(self@));
                }
                s
            },
        }
    }
}

impl FExpr {
    /// Render this flat expression as S-expression text.
    pub fn pretty(&self) -> (r: String)
        ensures
            r@ == spec_pretty_f(self@),
        decreases self,
    {
        match self {
            FExpr::Var(x) => x.hint.clone(),
            FExpr::Lit(l) => l.pretty(),
            FExpr::LamOne(x, b) => {
                let mut s = String::from_str("(lambda (");
                s.append(x.hint.as_str());
                s.append(") ");
                let body = b.pretty();
                s.append(body.as_str());
                s.append(")");
                proof {
                    assert(s@ =~= spec_pretty_f(self@));
                }
                s
            },
            FExpr::LamTwo(x, k, b) => {
                let mut s = String::from_str("(lambda (");
                s.append(x.hint.as_str());
                s.append(" ");
                s.append(k.hint.as_str());
                s.append(") ");
                let body = b.pretty();
                s.append(body.as_str());
                s.append(")");
                proof {
                    assert(s@ =~= spec_pretty_f(self@));
                }
                s
            },
            FExpr::CallOne(f, v) => {
                let mut s = String::from_str("(");
                let fp = f.pretty();
                s.append(fp.as_str());
                s.append(" ");
                let vp = v.pretty();
                s.append(vp.as_str());
                s.append(")");
                proof {
                    assert(s@ =~= spec_pretty_f(self@));
                }
                s
            },
            FExpr::CallTwo(f, v, c) => {
                let mut s = String::from_str("(");
                let fp = f.pretty();
                s.append(fp.as_str());
                s.append(" ");
                let vp = v.pretty();
                s.append(vp.as_str());
                s.append(" ");
                let cp = c.pretty();
                s.append(cp.as_str());
                s.append(")");
                proof {
                    assert(s@ =~= spec_pretty_f(self@));
                }
                s
            },
        }
    }
}

} // verus!
