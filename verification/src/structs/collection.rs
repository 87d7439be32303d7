use vstd::prelude::*;

use super::card::Card;

verus! {

/// A growing pile of cards, used to gather hole cards and board cards
/// before they are handed to the rank oracle.
pub struct Collection {
    pub cards: Vec<Card>,
}

impl Collection {
    /// An empty pile.
    pub fn new() -> (c: Self)
        ensures
            c.cards@.len() == 0,
    {
        Collection { cards: Vec::new() }
    }
}

} // verus!
