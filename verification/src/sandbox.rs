//! Untrusted-mode safety enforcement.
//!
//! Applies when any selected spec has `mode: untrusted`; the most restrictive
//! mode wins. Enforcement is by construction: subjects are only read, never
//! executed, so there is nothing further to enforce at run time.
use crate::spec::{Mode, Spec};
use vstd::prelude::*;

verus! {

/// Whether any of `specs` is an untrusted-mode spec.
pub open spec fn any_untrusted(specs: Seq<Spec>) -> bool {
    exists|i: int| 0 <= i < specs.len() && (#[trigger] specs[i]).meta.mode == Mode::Untrusted
}

/// The sandbox is needed for a list exactly when it is needed for one of
/// its parts: no spec needs none, one spec needs it exactly when it is
/// untrusted, and a list joined from two needs it when either does. So any
/// untrusted spec, wherever it stands, puts the run in the sandbox.
pub proof fn lemma_untrusted_anywhere(a: Seq<Spec>, b: Seq<Spec>, s: Spec)
    ensures
        !any_untrusted(Seq::<Spec>::empty()),
        any_untrusted(seq![s]) <==> s.meta.mode == Mode::Untrusted,
        any_untrusted(a + b) <==> any_untrusted(a) || any_untrusted(b),
{
    assert(seq![s][0] == s);
    if any_untrusted(a) {
        let i = choose|i: int| 0 <= i < a.len() && (#[trigger] a[i]).meta.mode == Mode::Untrusted;
        assert((a + b)[i] == a[i]);
    }
    if any_untrusted(b) {
        let i = choose|i: int| 0 <= i < b.len() && (#[trigger] b[i]).meta.mode == Mode::Untrusted;
        assert((a + b)[a.len() + i] == b[i]);
    }
    if any_untrusted(a + b) {
        let i = choose|i: int| 0 <= i < (a + b).len() && (#[trigger] (a + b)[i]).meta.mode == Mode::Untrusted;
        if i < a.len() {
            assert(a[i] == (a + b)[i]);
        } else {
            assert(b[i - a.len()] == (a + b)[i]);
        }
    }
}

/// Whether the run must be sandboxed: some spec is untrusted.
pub fn requires_sandbox(specs: &Vec<Spec>) -> (b: bool)
    ensures
        b == any_untrusted(specs@),
{
    let mut i: usize = 0;
    while i < specs.len()
        invariant
            i <= specs.len(),
            forall|k: int| 0 <= k < i ==> (#[trigger] specs@[k]).meta.mode != Mode::Untrusted,
        decreases specs.len() - i,
    {
        if specs[i].meta.mode == Mode::Untrusted {
            return true;
        }
        i = i + 1;
    }
    false
}

/// Puts untrusted-mode restrictions in place. Nothing is executed from the
/// subject, so this always succeeds.
pub fn enforce(specs: &Vec<Spec>) -> (r: Result<(), String>)
    ensures
        r is Ok,
{
    Ok(())
}

} // verus!
