use vstd::prelude::*;

use crate::sums::{lemma_sum_elem_le, lemma_sum_nonneg, lemma_sum_update, lemma_sum_zero, sum_u32};

verus! {

/// The chip-contribution ledger of one table: cumulative contributions for the
/// whole hand, and per-round bets with the standing bet to match.
#[derive(Debug)]
pub struct Pot {
    pub total: u32,
    pub contributions: Vec<u32>,
    pub current_bet: u32,
    pub player_bets: Vec<u32>,
}

impl Pot {
    /// Bookkeeping soundness: both ledgers cover the same seats, the running
    /// total equals the contributions, and no seat's round bet exceeds what it
    /// has put in over the hand.
    pub open spec fn wf(self) -> bool {
        &&& self.contributions@.len() == self.player_bets@.len()
        &&& self.total == sum_u32(self.contributions@)
        &&& forall|i: int|
            0 <= i < self.player_bets@.len() ==> self.player_bets@[i] <= self.contributions@[i]
    }

    /// The standing bet is the maximum of the seats' round bets
    /// (zero when no seat has bet).
    pub open spec fn bet_consistent(self) -> bool {
        &&& forall|i: int|
            0 <= i < self.player_bets@.len() ==> self.player_bets@[i] <= self.current_bet
        &&& self.current_bet == 0 || exists|i: int|
            0 <= i < self.player_bets@.len() && self.player_bets@[i] == self.current_bet
    }

    /// Creates an empty pot covering `players` seats.
    pub fn new(players: usize) -> (p: Self)
        ensures
            p.wf(),
            p.bet_consistent(),
            p.total == 0,
            p.current_bet == 0,
            p.contributions@.len() == players,
            p.player_bets@.len() == players,
            forall|i: int| 0 <= i < players ==> p.contributions@[i] == 0,
            forall|i: int| 0 <= i < players ==> p.player_bets@[i] == 0,
    {
        let p = Pot {
            total: 0,
            contributions: vec![0; players],
            current_bet: 0,
            player_bets: vec![0; players],
        };
        proof {
            lemma_sum_zero(p.contributions@);
        }
        p
    }

    /// Books `amount` more chips from a seat: its contribution, its round bet
    /// and the total all grow by `amount`, and the standing bet is raised to
    /// the seat's round bet where that now exceeds it. A seat outside the
    /// ledger changes nothing.
    pub fn add_constribution(&mut self, player_index: usize, amount: u32)
        requires
            old(self).wf(),
            old(self).total + amount <= u32::MAX,
        ensures
            final(self).wf(),
            player_index < old(self).contributions@.len() ==> {
                &&& final(self).contributions@ == old(self).contributions@.update(
                    player_index as int,
                    (old(self).contributions@[player_index as int] + amount) as u32,
                )
                &&& final(self).player_bets@ == old(self).player_bets@.update(
                    player_index as int,
                    (old(self).player_bets@[player_index as int] + amount) as u32,
                )
                &&& final(self).total == old(self).total + amount
                &&& final(self).current_bet == if old(self).player_bets@[player_index as int]
                    + amount > old(self).current_bet {
                    old(self).player_bets@[player_index as int] + amount
                } else {
                    old(self).current_bet as int
                }
            },
            player_index >= old(self).contributions@.len() ==> {
                &&& final(self).contributions@ == old(self).contributions@
                &&& final(self).player_bets@ == old(self).player_bets@
                &&& final(self).total == old(self).total
                &&& final(self).current_bet == old(self).current_bet
            },
            old(self).bet_consistent() ==> final(self).bet_consistent(),
    {
        if player_index < self.contributions.len() {
            proof {
                lemma_sum_elem_le(self.contributions@, player_index as int);
                lemma_sum_nonneg(self.contributions@);
                lemma_sum_update(
                    self.contributions@,
                    player_index as int,
                    (self.contributions@[player_index as int] + amount) as u32,
                );
            }
            let bumped_contribution = self.contributions[player_index] + amount;
            self.contributions.set(player_index, bumped_contribution);
            let bumped_bet = self.player_bets[player_index] + amount;
            self.player_bets.set(player_index, bumped_bet);
            self.total = self.total + amount;

            if self.player_bets[player_index] > self.current_bet {
                self.current_bet = self.player_bets[player_index];
            }

            proof {
                if old(self).bet_consistent() {
                    let i = player_index as int;
                    if self.current_bet == self.player_bets@[i] {
                        assert(0 <= i < self.player_bets@.len()
                            && self.player_bets@[i] == self.current_bet);
                    } else if self.current_bet != 0 {
                        let j = choose|j: int|
                            0 <= j < old(self).player_bets@.len() && old(self).player_bets@[j]
                                == old(self).current_bet;
                        assert(0 <= j < self.player_bets@.len()
                            && self.player_bets@[j] == self.current_bet);
                    }
                }
            }
        }
    }

    /// Reads one seat's cumulative contribution; zero for a seat outside the ledger.
    pub fn get_player_contribution(&self, player_index: usize) -> (c: u32)
        ensures
            c == if player_index < self.contributions@.len() {
                self.contributions@[player_index as int]
            } else {
                0
            },
    {
        if player_index < self.contributions.len() {
            self.contributions[player_index]
        } else {
            0
        }
    }

    /// Opens a fresh betting round: round bets and the standing bet are
    /// cleared while the hand's total and contributions are preserved.
    pub fn reset_round(&mut self)
        ensures
            final(self).total == old(self).total,
            final(self).contributions@ == old(self).contributions@,
            final(self).current_bet == 0,
            final(self).player_bets@.len() == old(self).player_bets@.len(),
            forall|i: int| 0 <= i < final(self).player_bets@.len() ==> final(self).player_bets@[i] == 0,
            old(self).wf() ==> final(self).wf(),
            final(self).bet_consistent(),
    {
        self.current_bet = 0;
        self.player_bets = vec![0; self.player_bets.len()];
    }

    /// Concludes a hand: everything is zeroed, the seat count is kept.
    pub fn reset(&mut self)
        ensures
            old(self).contributions@.len() == old(self).player_bets@.len() ==> final(self).wf(),
            final(self).bet_consistent(),
            final(self).total == 0,
            final(self).current_bet == 0,
            final(self).contributions@.len() == old(self).contributions@.len(),
            final(self).player_bets@.len() == old(self).player_bets@.len(),
            forall|i: int|
                0 <= i < final(self).contributions@.len() ==> final(self).contributions@[i] == 0,
            forall|i: int|
                0 <= i < final(self).player_bets@.len() ==> final(self).player_bets@[i] == 0,
    {
        self.total = 0;
        self.contributions = vec![0; self.contributions.len()];
        self.reset_round();
        proof {
            lemma_sum_zero(self.contributions@);
        }
    }
}

} // verus!
