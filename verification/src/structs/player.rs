use vstd::prelude::*;

use super::hand::Hand;
use super::playerchips::PlayerChips;

verus! {

/// One seat at the table: its display name, hole cards, chip bank, and the
/// folded / all-in flags of the current hand.
#[derive(Clone)]
pub struct Player {
    pub name: String,
    pub hand: Hand,
    pub chips: PlayerChips,
    pub is_folded: bool,
    pub is_all_in: bool,
}

impl Player {
    /// A fresh, unnamed seat holding `initial_chips` and no cards.
    pub fn new(initial_chips: u32) -> (p: Self)
        ensures
            p.name@.len() == 0,
            p.hand.cards@.len() == 0,
            p.chips.chips == initial_chips,
            !p.is_folded,
            !p.is_all_in,
    {
        Player {
            name: String::new(),
            hand: Hand::new(),
            chips: PlayerChips::new(initial_chips),
            is_folded: false,
            is_all_in: false,
        }
    }
}

} // verus!
