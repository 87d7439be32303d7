use vstd::prelude::*;

verus! {

/// A seat's chip bank.
#[derive(Debug, Clone)]
pub struct PlayerChips {
    pub chips: u32,
}

impl PlayerChips {
    /// Starts a bank with the given amount of chips.
    pub fn new(initial_chips: u32) -> (c: Self)
        ensures
            c.chips == initial_chips,
    {
        PlayerChips { chips: initial_chips }
    }

    /// Removes `amount` chips if the bank covers it; reports whether it did.
    pub fn deduct(&mut self, amount: u32) -> (ok: bool)
        ensures
            ok == (old(self).chips >= amount),
            ok ==> final(self).chips == old(self).chips - amount,
            !ok ==> final(self).chips == old(self).chips,
    {
        if self.chips >= amount {
            self.chips -= amount;
            true
        } else {
            false
        }
    }

    /// Adds winnings to the bank.
    pub fn add(&mut self, amount: u32)
        requires
            old(self).chips + amount <= u32::MAX,
        ensures
            final(self).chips == old(self).chips + amount,
    {
        self.chips += amount;
    }
}

} // verus!
