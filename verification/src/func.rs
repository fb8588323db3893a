//! Caller-supplied functions that give one result per argument.

use vstd::prelude::*;

verus! {

/// The result `f` gives for `a` (where `f` gives one result per argument).
pub open spec fn result_of<A, B, F: Fn(&A) -> B>(f: F, a: A) -> B {
    choose|r: B| f.ensures((&a,), r)
}

/// `f` accepts every argument and gives exactly one result for each.
pub open spec fn deterministic<A, B, F: Fn(&A) -> B>(f: F) -> bool {
    &&& forall|a: A| #[trigger] f.requires((&a,))
    &&& forall|a: A, r1: B, r2: B| f.ensures((&a,), r1) && f.ensures((&a,), r2) ==> r1 == r2
}

/// Calls `f`; the result is the one `result_of` names.
pub fn apply<A, B, F: Fn(&A) -> B>(f: &F, a: &A) -> (r: B)
    requires
        deterministic(*f),
    ensures
        r == result_of(*f, *a),
{
    let r = f(a);
    assert(f.ensures((a,), r));
    r
}

} // verus!
