use vstd::prelude::*;

use rand::seq::SliceRandom;

use super::card::{Card, Rank, Suit};
use super::enums::ActionError;

verus! {

/// The suit filling block `k` of a fresh, unshuffled deck.
pub open spec fn fresh_suit(k: int) -> Suit {
    if k == 0 {
        Suit::Spades
    } else if k == 1 {
        Suit::Clubs
    } else if k == 2 {
        Suit::Hearts
    } else {
        Suit::Diamonds
    }
}

/// The rank at offset `k` inside each block of a fresh deck, aces first.
pub open spec fn fresh_rank(k: int) -> Rank {
    if k == 0 {
        Rank::Ace
    } else if k == 1 {
        Rank::Two
    } else if k == 2 {
        Rank::Three
    } else if k == 3 {
        Rank::Four
    } else if k == 4 {
        Rank::Five
    } else if k == 5 {
        Rank::Six
    } else if k == 6 {
        Rank::Seven
    } else if k == 7 {
        Rank::Eight
    } else if k == 8 {
        Rank::Nine
    } else if k == 9 {
        Rank::Ten
    } else if k == 10 {
        Rank::Jack
    } else if k == 11 {
        Rank::Queen
    } else {
        Rank::King
    }
}

/// Card `i` of a fresh deck: thirteen cards per suit, suits in order.
pub open spec fn fresh_card(i: int) -> Card {
    Card { suit: fresh_suit(i / 13), rank: fresh_rank(i % 13) }
}

/// All 52 cards in the order a fresh deck holds them.
pub open spec fn full_deck() -> Seq<Card> {
    Seq::new(52, |i: int| fresh_card(i))
}

/// A fresh deck repeats no card.
pub proof fn lemma_full_deck_no_duplicates()
    ensures
        full_deck().no_duplicates(),
{
    assert forall|i: int, j: int|
        0 <= i < 52 && 0 <= j < 52 && i != j implies full_deck()[i] != full_deck()[j] by {
        assert(i == 13 * (i / 13) + i % 13);
        assert(j == 13 * (j / 13) + j % 13);
        assert(0 <= i / 13 < 4 && 0 <= i % 13 < 13);
        assert(0 <= j / 13 < 4 && 0 <= j % 13 < 13);
        if fresh_card(i) == fresh_card(j) {
            assert(fresh_suit(i / 13) == fresh_suit(j / 13));
            assert(fresh_rank(i % 13) == fresh_rank(j % 13));
            assert(i / 13 == j / 13);
            assert(i % 13 == j % 13);
        }
    }
}

/// The cards still to be dealt this hand, topmost last.
pub struct Deck {
    pub cards: Vec<Card>,
}

impl Deck {
    /// A full, ordered 52-card deck.
    pub fn new() -> (d: Self)
        ensures
            d.cards@ == full_deck(),
    {
        let mut d = Deck { cards: Vec::new() };
        d.reset();
        d
    }

    /// Relies on rand's `SliceRandom::shuffle`: it permutes the cards in
    /// place, so exactly the same cards remain, in some order.
    #[verifier::external_body]
    pub fn shuffle(&mut self)
        ensures
            final(self).cards@.len() == old(self).cards@.len(),
            final(self).cards@.to_multiset() == old(self).cards@.to_multiset(),
    {
        let mut rng = rand::rng();
        self.cards.shuffle(&mut rng);
    }

    /// Removes `amount` cards from the top of the deck and hands them out;
    /// refuses when fewer remain.
    pub fn draw(&mut self, amount: usize) -> (r: Result<Vec<Card>, ActionError>)
        ensures
            old(self).cards@.len() < amount ==> {
                &&& r matches Err(e) && e == ActionError::InsufficientCards
                &&& final(self).cards@ == old(self).cards@
            },
            old(self).cards@.len() >= amount ==> {
                &&& final(self).cards@ == old(self).cards@.take(
                    old(self).cards@.len() - amount,
                )
                &&& r matches Ok(drawn) && drawn@ == old(self).cards@.skip(
                    old(self).cards@.len() - amount,
                ).reverse()
            },
    {
        if self.cards.len() < amount {
            return Err(ActionError::InsufficientCards);
        }
        let ghost orig = self.cards@;
        let mut drawn: Vec<Card> = Vec::new();
        let mut k: usize = 0;
        while k < amount
            invariant
                k <= amount <= orig.len(),
                self.cards@ == orig.take(orig.len() - k),
                drawn@ == orig.skip(orig.len() - k).reverse(),
            decreases amount - k,
        {
            proof {
                assert(self.cards@.len() == orig.len() - k);
            }
            let c = match self.cards.pop() {
                Some(c) => c,
                None => {
                    proof {
                        assert(false);
                    }
                    Card { suit: Suit::Spades, rank: Rank::Ace }
                },
            };
            drawn.push(c);
            k = k + 1;
            proof {
                assert(self.cards@ =~= orig.take(orig.len() - k));
                assert(drawn@ =~= orig.skip(orig.len() - k).reverse());
            }
        }
        Ok(drawn)
    }

    /// Puts the deck back to the full, ordered 52 cards.
    pub fn reset(&mut self)
        ensures
            final(self).cards@ == full_deck(),
    {
        let mut deck: Vec<Card> = Vec::new();
        let mut suit_block: usize = 0;
        while suit_block < 4
            invariant
                suit_block <= 4,
                deck@.len() == 13 * suit_block,
                forall|k: int| 0 <= k < deck@.len() ==> deck@[k] == fresh_card(k),
            decreases 4 - suit_block,
        {
            let suit = match suit_block {
                0 => Suit::Spades,
                1 => Suit::Clubs,
                2 => Suit::Hearts,
                _ => Suit::Diamonds,
            };
            let mut rank_offset: usize = 0;
            while rank_offset < 13
                invariant
                    suit_block < 4,
                    rank_offset <= 13,
                    suit == fresh_suit(suit_block as int),
                    deck@.len() == 13 * suit_block + rank_offset,
                    forall|k: int| 0 <= k < deck@.len() ==> deck@[k] == fresh_card(k),
                decreases 13 - rank_offset,
            {
                let rank = match rank_offset {
                    0 => Rank::Ace,
                    1 => Rank::Two,
                    2 => Rank::Three,
                    3 => Rank::Four,
                    4 => Rank::Five,
                    5 => Rank::Six,
                    6 => Rank::Seven,
                    7 => Rank::Eight,
                    8 => Rank::Nine,
                    9 => Rank::Ten,
                    10 => Rank::Jack,
                    11 => Rank::Queen,
                    _ => Rank::King,
                };
                proof {
                    let k = deck@.len() as int;
                    assert(k / 13 == suit_block && k % 13 == rank_offset) by (nonlinear_arith)
                        requires
                            k == 13 * suit_block + rank_offset,
                            0 <= rank_offset < 13,
                            0 <= suit_block < 4,
                    ;
                }
                deck.push(Card { suit, rank });
                rank_offset = rank_offset + 1;
            }
            suit_block = suit_block + 1;
        }
        self.cards = deck;
        proof {
            assert(self.cards@ =~= full_deck());
        }
    }
}

} // verus!
