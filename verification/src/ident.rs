//! Free-variable identities and the fresh-identifier generator.

use vstd::prelude::*;

verus! {

/// Mathematical model of an identifier: a generation-unique identity and a
/// textual hint.  Two identifiers stand for the same variable exactly when
/// their `id` fields are equal; the hint is purely for display.
#[verifier::ext_equal]
pub struct IdentView {
    pub id: nat,
    pub hint: Seq<char>,
}

/// A free-variable identity paired with a textual hint.
///
/// Identities are issued by [`Gen::fresh`]; the hint is kept only so that
/// pretty-printed output stays readable.
pub struct Ident {
    pub id: u64,
    pub hint: String,
}

impl View for Ident {
    type V = IdentView;

    open spec fn view(&self) -> IdentView {
        IdentView { id: self.id as nat, hint: self.hint@ }
    }
}

impl Ident {
    /// A copy of this identifier, naming the same variable.
    pub fn duplicate(&self) -> (r: Ident)
        ensures
            r@ == self@,
    {
        Ident { id: self.id, hint: self.hint.clone() }
    }
}

/// Fresh-identifier generator: a monotonic counter.
///
/// Every identity it has issued so far is below `next`, so an identifier
/// with `id >= next` has never been produced by this generator.
pub struct Gen {
    pub next: u64,
}

impl Gen {
    /// A generator that has issued no identifiers yet.
    pub fn new() -> (r: Gen)
        ensures
            r.next == 0,
    {
        Gen { next: 0 }
    }

    /// Issue an identifier distinct from every identifier issued before,
    /// tagged with a display hint.
    pub fn fresh(&mut self, hint: &str) -> (r: Ident)
        requires
            old(self).next < u64::MAX,
        ensures
            r@.id == old(self).next as nat,
            r@.hint == hint@,
            final(self).next == old(self).next + 1,
    {
        let id = self.next;
        self.next = self.next + 1;
        Ident { id, hint: hint.to_owned() }
    }
}

} // verus!
