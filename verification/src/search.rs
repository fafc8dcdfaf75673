//! The first member of a sequence that has a property.
use vstd::prelude::*;

verus! {

/// The position of the first member that has the property.
#[verifier::opaque]
pub open spec fn first<A>(s: Seq<A>, p: spec_fn(A) -> bool) -> Option<int> {
    if exists|i: int| 0 <= i < s.len() && p(#[trigger] s[i]) {
        Some(
            choose|i: int|
                {
                    &&& 0 <= i < s.len()
                    &&& p(#[trigger] s[i])
                    &&& forall|j: int| 0 <= j < i ==> !p(#[trigger] s[j])
                },
        )
    } else {
        None
    }
}

proof fn first_exists<A>(s: Seq<A>, p: spec_fn(A) -> bool, k: int) -> (i: int)
    requires
        0 <= k < s.len(),
        p(s[k]),
    ensures
        0 <= i <= k,
        p(s[i]),
        forall|j: int| 0 <= j < i ==> !p(#[trigger] s[j]),
    decreases k,
{
    if forall|j: int| 0 <= j < k ==> !p(#[trigger] s[j]) {
        k
    } else {
        let j = choose|j: int| 0 <= j < k && p(#[trigger] s[j]);
        first_exists(s, p, j)
    }
}

/// What `first` gives is a member with the property, and none before it has it.
pub proof fn first_holds<A>(s: Seq<A>, p: spec_fn(A) -> bool)
    ensures
        first(s, p) matches Some(i) ==> {
            &&& 0 <= i < s.len()
            &&& p(s[i])
            &&& forall|j: int| 0 <= j < i ==> !p(#[trigger] s[j])
        },
        first(s, p) is None ==> forall|j: int| 0 <= j < s.len() ==> !p(#[trigger] s[j]),
{
    reveal(first);
    if exists|i: int| 0 <= i < s.len() && p(#[trigger] s[i]) {
        let k = choose|i: int| 0 <= i < s.len() && p(#[trigger] s[i]);
        let i = first_exists(s, p, k);
        assert(p(s[i]));
    }
}

/// A member with the property that has none before it is what `first` gives.
pub proof fn first_is<A>(s: Seq<A>, p: spec_fn(A) -> bool, i: int)
    requires
        0 <= i < s.len(),
        p(s[i]),
        forall|j: int| 0 <= j < i ==> !p(#[trigger] s[j]),
    ensures
        first(s, p) == Some(i),
{
    first_holds(s, p);
    let k = first(s, p)->0;
    if k < i {
        assert(!p(s[k]));
    } else if i < k {
        assert(!p(s[i]));
    }
}

/// Whether `at` are the places of all members that have the property, in their order.
pub open spec fn places<A>(s: Seq<A>, p: spec_fn(A) -> bool, at: Seq<int>) -> bool {
    &&& forall|k: int| 0 <= k < at.len() ==> 0 <= #[trigger] at[k] < s.len() && p(s[at[k]])
    &&& forall|j: int, k: int| 0 <= j < k < at.len() ==> #[trigger] at[j] < #[trigger] at[k]
    &&& forall|i: int| 0 <= i < s.len() && p(#[trigger] s[i]) ==> at.contains(i)
}

/// The places in a list are those in the list without its last member, and the last one where
/// that member has the property.
pub proof fn places_extend<A>(s: Seq<A>, p: spec_fn(A) -> bool, at: Seq<int>)
    requires
        s.len() > 0,
        places(s.drop_last(), p, at),
    ensures
        p(s.last()) ==> places(s, p, at.push(s.len() - 1)),
        !p(s.last()) ==> places(s, p, at),
{
    let rest = s.drop_last();
    let longer = at.push(s.len() - 1);
    assert forall|k: int| 0 <= k < at.len() implies 0 <= #[trigger] at[k] < s.len() && p(
        s[at[k]],
    ) by {
        assert(rest[at[k]] == s[at[k]]);
    }
    assert forall|i: int| 0 <= i < rest.len() && p(#[trigger] s[i]) implies at.contains(i) by {
        assert(p(rest[i]));
    }
    if p(s.last()) {
        assert forall|i: int| 0 <= i < s.len() && p(#[trigger] s[i]) implies longer.contains(i) by {
            if i < rest.len() {
                let k = at.index_of(i);
                assert(longer[k] == i);
            } else {
                assert(longer[at.len() as int] == i);
            }
        }
    }
}

/// Where only one member has the property, it has the only place; where none has, there is no
/// place.
pub proof fn places_of_one<A>(s: Seq<A>, p: spec_fn(A) -> bool, at: Seq<int>, only: Option<int>)
    requires
        places(s, p, at),
        match only {
            Some(i) => 0 <= i < s.len() && p(s[i]) && forall|j: int|
                0 <= j < s.len() && j != i ==> !p(#[trigger] s[j]),
            None => forall|j: int| 0 <= j < s.len() ==> !p(#[trigger] s[j]),
        },
    ensures
        match only {
            Some(i) => at == seq![i],
            None => at.len() == 0,
        },
{
    match only {
        Some(i) => {
            assert(at.contains(i));
            assert forall|k: int| 0 <= k < at.len() implies at[k] == i by {
                assert(p(s[at[k]]));
            }
            if at.len() > 1 {
                assert(at[0] < at[1]);
            }
            assert(at =~= seq![i]);
        },
        None => {
            if at.len() > 0 {
                assert(p(s[at[0]]));
            }
        },
    }
}

} // verus!
