//! Random ids, with a record of what was drawn.
use vstd::prelude::*;

use crate::outside;

verus! {

/// A run of draws: every id that was drawn in it, in order, and nothing else.
pub struct Draws {
    ids: Ghost<Seq<u128>>,
}

impl Draws {
    /// The ids that were drawn, in order.
    pub closed spec fn ids(self) -> Seq<u128> {
        self.ids@
    }

    /// A run in which nothing was drawn yet.
    pub fn new() -> (r: Draws)
        ensures
            r.ids() == Seq::<u128>::empty(),
    {
        Draws { ids: Ghost(Seq::empty()) }
    }

    /// Draws one more id at random.
    pub fn draw(&mut self) -> (r: u128)
        ensures
            final(self).ids() == old(self).ids().push(r),
    {
        let id: u128 = outside::uuid_random();
        proof {
            self.ids@ = self.ids@.push(id);
        }
        id
    }
}

} // verus!
