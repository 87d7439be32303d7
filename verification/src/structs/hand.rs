use vstd::prelude::*;

use crate::eval::{best_omit_rank, card_indices, eval_rank_spec, Evaluator};
use super::card::Card;
use super::misc::{rank_to_words, words_spec};

verus! {

/// A seat's hole cards: empty before the deal, two cards afterwards.
#[derive(Clone)]
pub struct Hand {
    pub cards: Vec<Card>,
}

impl Hand {
    /// An empty hand.
    pub fn new() -> (h: Self)
        ensures
            h.cards@.len() == 0,
    {
        Hand { cards: Vec::new() }
    }

    /// Ranks this hand together with the board through the rank oracle, and
    /// names the hand category the rank falls in. Lengths no poker hand has
    /// are reported with rank 0, and the cards must not repeat, since the
    /// oracle's tables only cover genuine deals.
    pub fn evaluate(&self, board: &Vec<Card>, oracle: &Evaluator) -> (r: (u32, &'static str))
        requires
            card_indices(self.cards@ + board@).no_duplicates(),
        ensures
            r.0 == eval_rank_spec(card_indices(self.cards@ + board@)),
            5 <= self.cards@.len() + board@.len() <= 7 ==> r.1 == words_spec(r.0),
    {
        let ghost combined = self.cards@ + board@;
        let ghost idx = card_indices(combined);

        let mut all: Vec<usize> = Vec::new();
        let mut i: usize = 0;
        while i < self.cards.len()
            invariant
                i <= self.cards@.len(),
                all@.len() == i,
                combined == self.cards@ + board@,
                idx == card_indices(combined),
                forall|k: int| 0 <= k < i ==> all@[k] as int == idx[k],
                forall|k: int| 0 <= k < i ==> all@[k] < 52,
            decreases self.cards@.len() - i,
        {
            proof {
                assert(combined[i as int] == self.cards@[i as int]);
                assert(idx[i as int] == combined[i as int].index_spec());
            }
            all.push(self.cards[i].as_index());
            i = i + 1;
        }
        let mut j: usize = 0;
        while j < board.len()
            invariant
                j <= board@.len(),
                all@.len() == self.cards@.len() + j,
                combined == self.cards@ + board@,
                idx == card_indices(combined),
                forall|k: int| 0 <= k < all@.len() ==> all@[k] as int == idx[k],
                forall|k: int| 0 <= k < all@.len() ==> all@[k] < 52,
            decreases board@.len() - j,
        {
            proof {
                assert(combined[self.cards@.len() + j] == board@[j as int]);
                assert(idx[self.cards@.len() + j] == combined[self.cards@.len()
                    + j].index_spec());
            }
            all.push(board[j].as_index());
            j = j + 1;
        }

        let amount_of_cards = all.len();
        proof {
            assert(amount_of_cards == combined.len());
            assert forall|a: int, b: int| 0 <= a < b < all@.len() implies all@[a] != all@[b] by {
                assert(idx[a] != idx[b]);
                assert(all@[a] as int == idx[a]);
                assert(all@[b] as int == idx[b]);
            }
        }

        if amount_of_cards < 5 || amount_of_cards > 7 {
            return (0, "Wrong amount of cards in hand plus board");
        }

        if amount_of_cards == 5 {
            proof {
                assert(all@.map_values(|x: usize| x as int) =~= idx);
            }
            let rank = oracle.rank_five(&all);
            (rank, rank_to_words(rank))
        } else if amount_of_cards == 7 {
            proof {
                assert(all@.map_values(|x: usize| x as int) =~= idx);
            }
            let rank = oracle.rank_seven(&all);
            (rank, rank_to_words(rank))
        } else {
            // Six cards: try each five-card hand that omits one position and
            // keep the best rank.
            let mut best: u32 = 0;
            let mut omit: usize = 0;
            while omit < 6
                invariant
                    omit <= 6,
                    all@.len() == 6,
                    idx == card_indices(combined),
                    combined.len() == 6,
                    forall|k: int| 0 <= k < 6 ==> all@[k] as int == idx[k],
                    forall|k: int| 0 <= k < 6 ==> all@[k] < 52,
                    forall|a: int, b: int| 0 <= a < b < 6 ==> all@[a] != all@[b],
                    best == best_omit_rank(idx, omit as nat),
                decreases 6 - omit,
            {
                let mut five: Vec<usize> = Vec::new();
                let mut k: usize = 0;
                while k < 6
                    invariant
                        k <= 6,
                        omit < 6,
                        all@.len() == 6,
                        five@.len() == if k <= omit { k as int } else { k - 1 },
                        forall|m: int|
                            0 <= m < five@.len() ==> five@[m] == (if m < omit {
                                all@[m]
                            } else {
                                all@[m + 1]
                            }),
                    decreases 6 - k,
                {
                    if k != omit {
                        five.push(all[k]);
                    }
                    k = k + 1;
                }
                proof {
                    assert(five@.map_values(|x: usize| x as int) =~= idx.remove(omit as int));
                }
                let r = oracle.rank_five(&five);
                if r > best {
                    best = r;
                }
                omit = omit + 1;
            }
            (best, rank_to_words(best))
        }
    }
}

} // verus!
