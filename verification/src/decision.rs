//! Questions about texts that a caller answers, always in the same way.
use vstd::prelude::*;

verus! {

/// Whether `f` can be asked about every text and answers as `p` says.
pub open spec fn decided_by<F: Fn(&str) -> bool>(f: F, p: spec_fn(Seq<char>) -> bool) -> bool {
    &&& forall|k: &str| #[trigger] call_requires(f, (k,))
    &&& forall|k: &str, b: bool| #[trigger] call_ensures(f, (k,), b) ==> b == p(k@)
}

/// Whether `f` can be asked about every text and its answer depends on the text alone.
pub open spec fn decides<F: Fn(&str) -> bool>(f: F) -> bool {
    exists|p: spec_fn(Seq<char>) -> bool| decided_by(f, p)
}

/// What `f` answers.
pub open spec fn verdict<F: Fn(&str) -> bool>(f: F) -> spec_fn(Seq<char>) -> bool {
    choose|p: spec_fn(Seq<char>) -> bool| decided_by(f, p)
}

/// Asks `f` about a text.
pub fn ask<F: Fn(&str) -> bool>(f: &F, key: &str) -> (r: bool)
    requires
        decides(*f),
    ensures
        r == verdict(*f)(key@),
{
    f(key)
}

} // verus!
