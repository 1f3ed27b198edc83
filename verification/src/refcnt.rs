//! The reference-count capability and its single-owner implementation.

use vstd::prelude::*;

verus! {

/// The largest number of references one block can carry.
pub const MAX_REFS: u16 = 65535;

/// A counter of the references to one block.
///
/// The counter lives inside the block it counts for. A fresh counter holds
/// one reference: that of the handle which created the block.
pub trait RefCnt: Default + Sized {
    /// The number of references currently held.
    spec fn count(&self) -> nat;

    /// Every counter that `default()` can return holds exactly one reference.
    proof fn default_holds_one(fresh: Self)
        requires
            call_ensures(Self::default, (), fresh),
        ensures
            fresh.count() == 1,
    ;

    /// Gives up one reference. Returns true if the count dropped to zero,
    /// in which case the block must be released.
    fn dec_ref(&mut self) -> (zero: bool)
        requires
            old(self).count() >= 1,
        ensures
            final(self).count() == old(self).count() - 1,
            zero == (old(self).count() == 1),
    ;

    /// Tries to take one more reference. At the maximum the counter is left
    /// as it is and false is returned.
    fn inc_ref(&mut self) -> (taken: bool)
        ensures
            taken == (old(self).count() < MAX_REFS),
            taken ==> final(self).count() == old(self).count() + 1,
            !taken ==> *final(self) == *old(self),
    ;
}

/// A plain counter for blocks whose handles all stay on one thread.
pub struct RCell {
    refs: u16,
}

impl Default for RCell {
    fn default() -> (fresh: Self)
        ensures
            fresh.count() == 1,
    {
        RCell { refs: 1 }
    }
}

impl RefCnt for RCell {
    closed spec fn count(&self) -> nat {
        self.refs as nat
    }

    proof fn default_holds_one(fresh: Self) {
    }

    fn dec_ref(&mut self) -> (zero: bool) {
        let before: u16 = self.refs;
        self.refs = before - 1;
        before == 1
    }

    fn inc_ref(&mut self) -> (taken: bool) {
        let before: u16 = self.refs;
        if before == MAX_REFS {
            false
        } else {
            self.refs = before + 1;
            true
        }
    }
}

} // verus!
