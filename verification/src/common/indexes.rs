//! The cursors of a wallet: which address comes next on each chain.

use vstd::prelude::*;

verus! {

/// The next unused index on the external chain and on the change chain.
#[derive(Debug, Clone, Copy, PartialEq, Eq, Structural)]
pub struct WalletIndexes {
    pub main: u32,
    pub change: u32,
}

impl WalletIndexes {
    /// The cursors with the external one moved on by one.
    pub open spec fn spec_after_external(self) -> WalletIndexes {
        WalletIndexes { main: (self.main + 1) as u32, change: self.change }
    }

    /// The cursors with the change one moved on by one.
    pub open spec fn spec_after_change(self) -> WalletIndexes {
        WalletIndexes { main: self.main, change: (self.change + 1) as u32 }
    }

    /// The cursors with the change one moved back by one.
    pub open spec fn spec_before_change(self) -> WalletIndexes {
        WalletIndexes { main: self.main, change: (self.change - 1) as u32 }
    }

    /// The cursors of a new wallet: both at zero.
    pub fn new() -> (indexes: WalletIndexes)
        ensures
            indexes.main == 0,
            indexes.change == 0,
    {
        WalletIndexes { main: 0, change: 0 }
    }

    /// Hands out the current external index and moves the cursor on by one.
    /// The change cursor stays. `None`, and nothing moves, once the last index
    /// that 32 bits hold is reached.
    pub fn next_external(&mut self) -> (index: Option<u32>)
        ensures
            match index {
                Some(i) => i == old(self).main && old(self).main < u32::MAX && *final(self) == old(
                    self,
                ).spec_after_external() && final(self).main == old(self).main + 1,
                None => old(self).main == u32::MAX && *final(self) == *old(self),
            },
    {
        if self.main == u32::MAX {
            None
        } else {
            let index = self.main;
            self.main = index + 1;
            Some(index)
        }
    }

    /// Hands out the current change index and moves the cursor on by one. The
    /// external cursor stays. `None`, and nothing moves, once the last index
    /// that 32 bits hold is reached.
    pub fn next_change(&mut self) -> (index: Option<u32>)
        ensures
            match index {
                Some(i) => i == old(self).change && old(self).change < u32::MAX && *final(self)
                    == old(self).spec_after_change() && final(self).change == old(self).change + 1,
                None => old(self).change == u32::MAX && *final(self) == *old(self),
            },
    {
        if self.change == u32::MAX {
            None
        } else {
            let index = self.change;
            self.change = index + 1;
            Some(index)
        }
    }

    /// The change index `allocated` is the one handed out last: nothing was
    /// handed out after it.
    pub open spec fn spec_is_last_change(self, allocated: u32) -> bool {
        self.change == allocated + 1
    }

    /// Takes back the change index `allocated` if it is the one handed out
    /// last, and says whether it did. Where another index was handed out
    /// since, or none ever, the cursors stay as they are: moving the cursor
    /// back then would hand an index out twice.
    pub fn release_change(&mut self, allocated: u32) -> (released: bool)
        ensures
            released == old(self).spec_is_last_change(allocated),
            released ==> *final(self) == old(self).spec_before_change() && final(self).change
                == allocated,
            !released ==> *final(self) == *old(self),
    {
        if allocated < u32::MAX && self.change == allocated + 1 {
            self.change = allocated;
            true
        } else {
            false
        }
    }

    /// Takes back the change index handed out last: the cursor moves back by
    /// one, the external cursor stays.
    pub fn decrement_change(&mut self)
        requires
            old(self).change > 0,
        ensures
            *final(self) == old(self).spec_before_change(),
            final(self).change == old(self).change - 1,
            final(self).main == old(self).main,
    {
        self.change = self.change - 1;
    }
}

/// Taking back a change index that was handed out leaves the cursors as they
/// were before it was handed out.
pub proof fn lemma_decrement_undoes_next_change(indexes: WalletIndexes)
    requires
        indexes.change < u32::MAX,
    ensures
        indexes.spec_after_change().change > 0,
        indexes.spec_after_change().spec_before_change() == indexes,
{
}

/// A change index that was handed out can be released as long as no other
/// was handed out after it, and the cursors are then as they were before;
/// once another was handed out, it can not.
pub proof fn lemma_release_undoes_next_change(indexes: WalletIndexes)
    requires
        indexes.change < u32::MAX,
    ensures
        indexes.spec_after_change().spec_is_last_change(indexes.change),
        indexes.spec_after_change().change < u32::MAX
            ==> !indexes.spec_after_change().spec_after_change().spec_is_last_change(
            indexes.change,
        ),
{
}

/// Handing out indexes never moves a cursor back, and moves the one asked
/// for by exactly one.
pub proof fn lemma_cursors_advance(indexes: WalletIndexes)
    ensures
        indexes.main < u32::MAX ==> indexes.spec_after_external().main == indexes.main + 1
            && indexes.spec_after_external().change == indexes.change,
        indexes.change < u32::MAX ==> indexes.spec_after_change().change == indexes.change + 1
            && indexes.spec_after_change().main == indexes.main,
{
}

} // verus!
