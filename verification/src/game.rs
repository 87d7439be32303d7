use vstd::prelude::*;

use crate::dealing::{
    lemma_dealt_all_empty,
    dealt_cards, lemma_dealt_push, lemma_dealt_update_same_hand, lemma_hand_board_no_dup,
};
use crate::eval::{card_indices, eval_rank_spec, Evaluator};
use crate::structs::card::Card;
use crate::structs::deck::{full_deck, lemma_full_deck_no_duplicates, Deck};
use crate::structs::enums::{ActionError, GamePhase};
use crate::structs::player::Player;
use crate::structs::playerchips::PlayerChips;
use crate::structs::pot::Pot;
use crate::sums::{
    lemma_sum_constant, lemma_sum_elem_le, lemma_sum_push, lemma_sum_update, sum_u32,
};

verus! {

/// The community cards, in the order they were dealt.
pub type Board = Vec<Card>;

/// Each seat's stack, in seat order.
pub open spec fn stacks_of(players: Seq<Player>) -> Seq<u32> {
    players.map_values(|p: Player| p.chips.chips)
}

/// All chips sitting in the seats' stacks.
pub open spec fn stack_sum(players: Seq<Player>) -> int {
    sum_u32(stacks_of(players))
}

/// One table: deck, board, seats, pot, the hand-rank oracle, and the betting
/// round's bookkeeping.
pub struct Game {
    pub deck: Deck,
    pub players: Vec<Player>,
    pub board: Board,
    pub eval: Evaluator,
    pub pot: Pot,
    pub phase: GamePhase,
    pub winner: Option<usize>,
    pub current_turn_index: usize,
    pub player_has_acted: Vec<bool>,
}

impl Game {
    /// Every card in play, whether still in the deck, on the board, or dealt
    /// to a seat.
    pub open spec fn all_cards(self) -> Seq<Card> {
        self.deck.cards@ + self.board@ + dealt_cards(self.players@)
    }

    /// No card is in play twice.
    pub open spec fn cards_ok(self) -> bool {
        self.all_cards().no_duplicates()
    }

    /// The chips at the table: every stack plus the pot. Every validated
    /// betting action, round advance and award preserves this quantity (see
    /// the `ensures` of `bet`, `call`, `fold`, `all_in`,
    /// `award_pot_to_winner`, `advance_phase` and `handle_message`), so over
    /// any run of play it stays the sum of the initial stacks.
    pub open spec fn chips_in_play(self) -> int {
        stack_sum(self.players@) + self.pot.total
    }

    /// Table soundness: the ledgers cover exactly the seats, the pot's books
    /// balance, the turn pointer points at a seat, all chips in play fit a
    /// `u32`, and no card is in play twice.
    pub open spec fn wf(self) -> bool {
        &&& self.pot.wf()
        &&& self.pot.contributions@.len() == self.players@.len()
        &&& self.player_has_acted@.len() == self.players@.len()
        &&& (self.current_turn_index < self.players@.len() || self.current_turn_index == 0)
        &&& self.chips_in_play() <= u32::MAX
        &&& self.cards_ok()
    }

    /// The rank the oracle gives seat `i`'s hole cards together with the board.
    pub open spec fn seat_rank(self, i: int) -> u32 {
        eval_rank_spec(card_indices(self.players@[i].hand.cards@ + self.board@))
    }

    /// Every seat still in the hand has acted since the last raise.
    pub open spec fn all_acted_spec(self) -> bool {
        forall|i: int|
            0 <= i < self.players@.len() ==> self.players@[i].is_folded
                || self.player_has_acted@[i]
    }

    /// Every seat still in the hand has matched the standing bet.
    pub open spec fn non_folded_match_bet_spec(self) -> bool {
        forall|i: int|
            0 <= i < self.players@.len() ==> self.players@[i].is_folded
                || self.pot.player_bets@[i] == self.pot.current_bet
    }

    /// Seats a table of `players` players, each starting with
    /// `initial_chips` chips, an ordered deck, an empty board, an empty pot,
    /// and the phase idling before the first hand.
    pub fn new(players: usize, initial_chips: u32) -> (g: Game)
        requires
            players * initial_chips <= u32::MAX,
        ensures
            g.wf(),
            g.players@.len() == players,
            forall|i: int|
                0 <= i < players ==> {
                    &&& g.players@[i].chips.chips == initial_chips
                    &&& !g.players@[i].is_folded
                    &&& !g.players@[i].is_all_in
                    &&& g.players@[i].hand.cards@.len() == 0
                },
            g.board@.len() == 0,
            g.deck.cards@ == full_deck(),
            g.pot.total == 0,
            g.pot.current_bet == 0,
            g.pot.contributions@.len() == players,
            forall|i: int| 0 <= i < players ==> g.pot.contributions@[i] == 0,
            forall|i: int| 0 <= i < players ==> g.pot.player_bets@[i] == 0,
            g.pot.bet_consistent(),
            g.phase == GamePhase::Waiting,
            g.winner is None,
            g.current_turn_index == 0,
            forall|i: int| 0 <= i < players ==> !g.player_has_acted@[i],
            g.chips_in_play() == players * initial_chips,
    {
        let mut player_list: Vec<Player> = Vec::new();
        let mut n: usize = 0;
        while n < players
            invariant
                n <= players,
                player_list@.len() == n,
                forall|i: int|
                    0 <= i < n ==> {
                        &&& player_list@[i].chips.chips == initial_chips
                        &&& !player_list@[i].is_folded
                        &&& !player_list@[i].is_all_in
                        &&& player_list@[i].hand.cards@.len() == 0
                    },
                stack_sum(player_list@) == n * initial_chips,
                dealt_cards(player_list@) == Seq::<Card>::empty(),
            decreases players - n,
        {
            let p = Player::new(initial_chips);
            proof {
                lemma_dealt_push(player_list@, p);
                assert(p.hand.cards@ =~= Seq::<Card>::empty());
                assert(dealt_cards(player_list@) + p.hand.cards@ =~= Seq::<Card>::empty());
                assert(stacks_of(player_list@.push(p)) =~= stacks_of(player_list@).push(
                    initial_chips,
                ));
                lemma_sum_push(stacks_of(player_list@), initial_chips);
                assert((n + 1) * initial_chips == n * initial_chips + initial_chips)
                    by (nonlinear_arith);
            }
            player_list.push(p);
            n = n + 1;
        }

        let pot = Pot::new(players);
        let g = Game {
            deck: Deck::new(),
            players: player_list,
            board: Vec::new(),
            eval: Evaluator::new(),
            pot,
            phase: GamePhase::Waiting,
            winner: None,
            current_turn_index: 0,
            player_has_acted: vec![false; players],
        };
        proof {
            lemma_full_deck_no_duplicates();
            assert(g.all_cards() =~= full_deck());
        }
        g
    }

    /// A seat puts `amount` chips forward as the new standing bet. The chips
    /// move from the stack into the pot, the standing bet becomes exactly
    /// `amount`, and the action reopens: every other seat has to act again.
    /// Refused without any change when the seat does not exist, cannot cover
    /// the amount, or bids under the standing bet.
    pub fn bet(&mut self, player_index: usize, amount: u32) -> (r: Result<(), ActionError>)
        requires
            old(self).wf(),
        ensures
            final(self).wf(),
            (r matches Err(e) && e == ActionError::InvalidSeat) <==> player_index >= old(self).players@.len(),
            (r matches Err(e) && e == ActionError::InsufficientChips) <==> (player_index < old(self).players@.len() && old(self).players@[player_index as int].chips.chips < amount),
            (r matches Err(e) && e == ActionError::BetTooLow) <==> (player_index < old(self).players@.len() && old(self).players@[player_index as int].chips.chips >= amount
                && amount < old(self).pot.current_bet),
            r matches Ok(_) <==> (player_index < old(self).players@.len() && old(
                self,
            ).players@[player_index as int].chips.chips >= amount && amount >= old(
                self,
            ).pot.current_bet),
            r matches Err(_) ==> *final(self) == *old(self),
            r matches Ok(_) ==> {
                &&& player_index < old(self).players@.len()
                &&& final(self).players@ == old(self).players@.update(
                    player_index as int,
                    (Player {
                        chips: PlayerChips {
                            chips: (old(self).players@[player_index as int].chips.chips
                                - amount) as u32,
                        },
                        ..old(self).players@[player_index as int]
                    }),
                )
                &&& final(self).pot.total == old(self).pot.total + amount
                &&& final(self).pot.contributions@ == old(self).pot.contributions@.update(
                    player_index as int,
                    (old(self).pot.contributions@[player_index as int] + amount) as u32,
                )
                &&& final(self).pot.player_bets@ == old(self).pot.player_bets@.update(
                    player_index as int,
                    (old(self).pot.player_bets@[player_index as int] + amount) as u32,
                )
                &&& final(self).pot.current_bet == amount
                &&& final(self).player_has_acted@.len() == old(self).players@.len()
                &&& forall|j: int|
                    0 <= j < final(self).player_has_acted@.len() ==> (final(self).player_has_acted@[j] <==> j == player_index as int)
                &&& final(self).deck.cards@ == old(self).deck.cards@
                &&& final(self).board@ == old(self).board@
                &&& final(self).phase == old(self).phase
                &&& final(self).winner == old(self).winner
                &&& final(self).current_turn_index == old(self).current_turn_index
            },
            final(self).chips_in_play() == old(self).chips_in_play(),
            old(self).pot.bet_consistent() && (r matches Ok(_) ==> old(self).pot.player_bets@[player_index as int] == 0) ==> final(self).pot.bet_consistent(),
    {
        if player_index >= self.players.len() {
            return Err(ActionError::InvalidSeat);
        }
        if self.players[player_index].chips.chips < amount {
            return Err(ActionError::InsufficientChips);
        }
        if amount < self.pot.current_bet {
            return Err(ActionError::BetTooLow);
        }

        let i = player_index;
        proof {
            assert(stacks_of(self.players@)[i as int] == self.players@[i as int].chips.chips);
            lemma_sum_elem_le(stacks_of(self.players@), i as int);
        }
        self.players[i].chips.chips = self.players[i].chips.chips - amount;
        proof {
            let ghost updated = (Player {
                chips: PlayerChips {
                    chips: (old(self).players@[i as int].chips.chips - amount) as u32,
                },
                ..old(self).players@[i as int]
            });
            assert(self.players@ =~= old(self).players@.update(i as int, updated));
            assert(stacks_of(self.players@) =~= stacks_of(old(self).players@).update(
                i as int,
                (old(self).players@[i as int].chips.chips - amount) as u32,
            ));
            lemma_sum_update(
                stacks_of(old(self).players@),
                i as int,
                (old(self).players@[i as int].chips.chips - amount) as u32,
            );
            lemma_dealt_update_same_hand(old(self).players@, i as int, updated);
        }
        self.pot.add_constribution(i, amount);
        self.pot.current_bet = amount;
        self.player_has_acted = vec![false; self.players.len()];
        self.player_has_acted.set(i, true);
        proof {
            assert(self.all_cards() =~= old(self).all_cards());
            if old(self).pot.bet_consistent() && old(self).pot.player_bets@[i as int] == 0 {
                assert(self.pot.player_bets@[i as int] == amount);
                assert forall|j: int|
                    0 <= j < self.pot.player_bets@.len() implies self.pot.player_bets@[j]
                    <= self.pot.current_bet by {
                    assert(old(self).pot.player_bets@[j] <= old(self).pot.current_bet);
                }
            }
        }
        Ok(())
    }

    /// What a seat owes to match the standing bet.
    pub open spec fn to_call_spec(self, i: int) -> int {
        if self.pot.current_bet >= self.pot.player_bets@[i] {
            self.pot.current_bet - self.pot.player_bets@[i]
        } else {
            0
        }
    }

    /// A seat matches the standing bet: the difference between the standing
    /// bet and its round bet moves from its stack into the pot. Refused
    /// without any change when the seat does not exist or cannot cover the
    /// difference.
    pub fn call(&mut self, player_index: usize) -> (r: Result<(), ActionError>)
        requires
            old(self).wf(),
        ensures
            final(self).wf(),
            (r matches Err(e) && e == ActionError::InvalidSeat) <==> player_index >= old(self).players@.len(),
            (r matches Err(e) && e == ActionError::InsufficientChips) <==> (player_index < old(self).players@.len() && old(self).players@[player_index as int].chips.chips < old(self).to_call_spec(player_index as int)),
            r matches Ok(_) <==> (player_index < old(self).players@.len() && old(
                self,
            ).players@[player_index as int].chips.chips >= old(self).to_call_spec(
                player_index as int,
            )),
            r matches Err(_) ==> *final(self) == *old(self),
            r matches Ok(_) ==> {
                &&& player_index < old(self).players@.len()
                &&& final(self).players@ == old(self).players@.update(
                    player_index as int,
                    (Player {
                        chips: PlayerChips {
                            chips: (old(self).players@[player_index as int].chips.chips - old(self).to_call_spec(player_index as int)) as u32,
                        },
                        ..old(self).players@[player_index as int]
                    }),
                )
                &&& final(self).pot.total == old(self).pot.total + old(self).to_call_spec(
                    player_index as int,
                )
                &&& final(self).pot.contributions@ == old(self).pot.contributions@.update(
                    player_index as int,
                    (old(self).pot.contributions@[player_index as int] + old(self).to_call_spec(
                        player_index as int,
                    )) as u32,
                )
                &&& final(self).pot.player_bets@ == old(self).pot.player_bets@.update(
                    player_index as int,
                    (if old(self).pot.current_bet >= old(self).pot.player_bets@[player_index as int] {
                        old(self).pot.current_bet
                    } else {
                        old(self).pot.player_bets@[player_index as int]
                    }) as u32,
                )
                &&& final(self).pot.current_bet == (if old(self).pot.current_bet >= old(self).pot.player_bets@[player_index as int] {
                    old(self).pot.current_bet
                } else {
                    old(self).pot.player_bets@[player_index as int]
                })
                &&& final(self).player_has_acted@ == old(self).player_has_acted@.update(
                    player_index as int,
                    true,
                )
                &&& final(self).deck.cards@ == old(self).deck.cards@
                &&& final(self).board@ == old(self).board@
                &&& final(self).phase == old(self).phase
                &&& final(self).winner == old(self).winner
                &&& final(self).current_turn_index == old(self).current_turn_index
            },
            final(self).chips_in_play() == old(self).chips_in_play(),
            old(self).pot.bet_consistent() ==> final(self).pot.bet_consistent(),
    {
        if player_index >= self.players.len() {
            return Err(ActionError::InvalidSeat);
        }
        let i = player_index;
        let to_call = self.pot.current_bet.saturating_sub(self.pot.player_bets[i]);
        if self.players[i].chips.chips < to_call {
            return Err(ActionError::InsufficientChips);
        }

        proof {
            assert(stacks_of(self.players@)[i as int] == self.players@[i as int].chips.chips);
            lemma_sum_elem_le(stacks_of(self.players@), i as int);
        }
        self.players[i].chips.chips = self.players[i].chips.chips - to_call;
        proof {
            let ghost updated = (Player {
                chips: PlayerChips {
                    chips: (old(self).players@[i as int].chips.chips - to_call) as u32,
                },
                ..old(self).players@[i as int]
            });
            assert(self.players@ =~= old(self).players@.update(i as int, updated));
            assert(stacks_of(self.players@) =~= stacks_of(old(self).players@).update(
                i as int,
                (old(self).players@[i as int].chips.chips - to_call) as u32,
            ));
            lemma_sum_update(
                stacks_of(old(self).players@),
                i as int,
                (old(self).players@[i as int].chips.chips - to_call) as u32,
            );
            lemma_dealt_update_same_hand(old(self).players@, i as int, updated);
        }
        self.pot.add_constribution(i, to_call);
        self.player_has_acted.set(i, true);
        proof {
            assert(self.all_cards() =~= old(self).all_cards());
        }
        Ok(())
    }

    /// A seat checks: legal exactly when its round bet already covers the
    /// standing bet, and nothing changes either way.
    pub fn check(&self, player_index: usize) -> (r: Result<(), ActionError>)
        requires
            self.pot.player_bets@.len() == self.players@.len(),
        ensures
            (r matches Err(e) && e == ActionError::InvalidSeat) <==> player_index
                >= self.players@.len(),
            (r matches Err(e) && e == ActionError::MustActOnBet) <==> (player_index
                < self.players@.len() && self.pot.current_bet
                > self.pot.player_bets@[player_index as int]),
            r matches Ok(_) <==> (player_index < self.players@.len() && self.pot.current_bet
                <= self.pot.player_bets@[player_index as int]),
    {
        if player_index >= self.players.len() {
            return Err(ActionError::InvalidSeat);
        }
        if self.pot.current_bet > self.pot.player_bets[player_index] {
            return Err(ActionError::MustActOnBet);
        }
        Ok(())
    }

    /// A seat gives up its hand. Always succeeds; the folded flag is set,
    /// and giving up counts as having acted.
    pub fn fold(&mut self, player_index: usize)
        requires
            old(self).wf(),
            player_index < old(self).players@.len(),
        ensures
            final(self).wf(),
            final(self).players@ == old(self).players@.update(
                player_index as int,
                (Player { is_folded: true, ..old(self).players@[player_index as int] }),
            ),
            final(self).pot == old(self).pot,
            final(self).deck.cards@ == old(self).deck.cards@,
            final(self).board@ == old(self).board@,
            final(self).phase == old(self).phase,
            final(self).winner == old(self).winner,
            final(self).current_turn_index == old(self).current_turn_index,
            final(self).player_has_acted@ == old(self).player_has_acted@.update(
                player_index as int,
                true,
            ),
            final(self).chips_in_play() == old(self).chips_in_play(),
    {
        let i = player_index;
        self.players[i].is_folded = true;
        self.player_has_acted.set(i, true);
        proof {
            let ghost updated = (Player { is_folded: true, ..old(self).players@[i as int] });
            assert(self.players@ =~= old(self).players@.update(i as int, updated));
            assert(stacks_of(self.players@) =~= stacks_of(old(self).players@).update(
                i as int,
                old(self).players@[i as int].chips.chips,
            ));
            lemma_sum_update(
                stacks_of(old(self).players@),
                i as int,
                old(self).players@[i as int].chips.chips,
            );
            lemma_dealt_update_same_hand(old(self).players@, i as int, updated);
            assert(self.all_cards() =~= old(self).all_cards());
        }
    }

    /// A seat pushes its whole stack in: the stack empties into the pot, the
    /// seat's round bet becomes exactly that stack, the standing bet rises
    /// to it where it was lower, and the seat is marked all-in. Refused
    /// without any change when the seat does not exist or has nothing left.
    pub fn all_in(&mut self, player_index: usize) -> (r: Result<(), ActionError>)
        requires
            old(self).wf(),
        ensures
            final(self).wf(),
            (r matches Err(e) && e == ActionError::InvalidSeat) <==> player_index >= old(self).players@.len(),
            (r matches Err(e) && e == ActionError::InsufficientChips) <==> (player_index < old(self).players@.len() && old(self).players@[player_index as int].chips.chips == 0),
            r matches Ok(_) <==> (player_index < old(self).players@.len() && old(
                self,
            ).players@[player_index as int].chips.chips > 0),
            r matches Err(_) ==> *final(self) == *old(self),
            r matches Ok(_) ==> {
                &&& player_index < old(self).players@.len()
                &&& final(self).players@ == old(self).players@.update(
                    player_index as int,
                    (Player {
                        chips: PlayerChips { chips: 0 },
                        is_all_in: true,
                        ..old(self).players@[player_index as int]
                    }),
                )
                &&& final(self).pot.total == old(self).pot.total + old(self).players@[player_index as int].chips.chips
                &&& final(self).pot.contributions@ == old(self).pot.contributions@.update(
                    player_index as int,
                    (old(self).pot.contributions@[player_index as int] + old(self).players@[player_index as int].chips.chips) as u32,
                )
                &&& final(self).pot.player_bets@ == old(self).pot.player_bets@.update(
                    player_index as int,
                    old(self).players@[player_index as int].chips.chips,
                )
                &&& final(self).pot.current_bet == (if old(self).pot.player_bets@[player_index as int] + old(self).players@[player_index as int].chips.chips > old(self).pot.current_bet {
                    old(self).pot.player_bets@[player_index as int] + old(self).players@[player_index as int].chips.chips
                } else {
                    old(self).pot.current_bet as int
                })
                &&& final(self).player_has_acted@ == old(self).player_has_acted@
                &&& final(self).deck.cards@ == old(self).deck.cards@
                &&& final(self).board@ == old(self).board@
                &&& final(self).phase == old(self).phase
                &&& final(self).winner == old(self).winner
                &&& final(self).current_turn_index == old(self).current_turn_index
            },
            final(self).chips_in_play() == old(self).chips_in_play(),
    {
        if player_index >= self.players.len() {
            return Err(ActionError::InvalidSeat);
        }
        let i = player_index;
        if self.players[i].chips.chips == 0 {
            return Err(ActionError::InsufficientChips);
        }

        let all_in_amount = self.players[i].chips.chips;
        proof {
            assert(stacks_of(self.players@)[i as int] == self.players@[i as int].chips.chips);
            lemma_sum_elem_le(stacks_of(self.players@), i as int);
        }
        self.players[i].chips.chips = 0;
        self.players[i].is_all_in = true;
        proof {
            let ghost updated = (Player {
                chips: PlayerChips { chips: 0 },
                is_all_in: true,
                ..old(self).players@[i as int]
            });
            assert(self.players@ =~= old(self).players@.update(i as int, updated));
            assert(stacks_of(self.players@) =~= stacks_of(old(self).players@).update(
                i as int,
                0u32,
            ));
            lemma_sum_update(stacks_of(old(self).players@), i as int, 0u32);
            lemma_dealt_update_same_hand(old(self).players@, i as int, updated);
        }
        self.pot.add_constribution(i, all_in_amount);
        if all_in_amount > self.pot.current_bet {
            self.pot.current_bet = all_in_amount;
        }
        self.pot.player_bets.set(i, all_in_amount);
        proof {
            assert(self.all_cards() =~= old(self).all_cards());
            assert(self.pot.player_bets@ =~= old(self).pot.player_bets@.update(
                i as int,
                all_in_amount,
            ));
        }
        Ok(())
    }

    /// Notes that a seat has acted this round.
    pub fn mark_acted(&mut self, player_index: usize)
        requires
            old(self).wf(),
            player_index < old(self).players@.len(),
        ensures
            final(self).wf(),
            final(self).player_has_acted@ == old(self).player_has_acted@.update(
                player_index as int,
                true,
            ),
            final(self).players@ == old(self).players@,
            final(self).pot == old(self).pot,
            final(self).deck.cards@ == old(self).deck.cards@,
            final(self).board@ == old(self).board@,
            final(self).phase == old(self).phase,
            final(self).winner == old(self).winner,
            final(self).current_turn_index == old(self).current_turn_index,
            final(self).chips_in_play() == old(self).chips_in_play(),
    {
        self.player_has_acted.set(player_index, true);
    }

    /// Whether every seat still in the hand has acted this round.
    pub fn all_acted(&self) -> (r: bool)
        requires
            self.player_has_acted@.len() == self.players@.len(),
        ensures
            r == self.all_acted_spec(),
    {
        let mut i: usize = 0;
        while i < self.players.len()
            invariant
                i <= self.players@.len(),
                self.player_has_acted@.len() == self.players@.len(),
                forall|j: int|
                    0 <= j < i ==> self.players@[j].is_folded || self.player_has_acted@[j],
            decreases self.players@.len() - i,
        {
            if !self.players[i].is_folded && !self.player_has_acted[i] {
                return false;
            }
            i = i + 1;
        }
        true
    }

    /// Whether every seat still in the hand has matched the standing bet.
    pub fn non_folded_players_match_bet(&self) -> (r: bool)
        requires
            self.pot.player_bets@.len() == self.players@.len(),
        ensures
            r == self.non_folded_match_bet_spec(),
    {
        let mut i: usize = 0;
        while i < self.players.len()
            invariant
                i <= self.players@.len(),
                self.pot.player_bets@.len() == self.players@.len(),
                forall|j: int|
                    0 <= j < i ==> self.players@[j].is_folded || self.pot.player_bets@[j]
                        == self.pot.current_bet,
            decreases self.players@.len() - i,
        {
            if !self.players[i].is_folded {
                if self.pot.player_bets[i] != self.pot.current_bet {
                    return false;
                }
            }
            i = i + 1;
        }
        true
    }

    /// Pays the whole pot to one chosen seat and zeroes the pot.
    pub fn award_pot_to_specific_player(&mut self, winner_index: usize)
        requires
            old(self).wf(),
            winner_index < old(self).players@.len(),
        ensures
            final(self).wf(),
            final(self).players@ == old(self).players@.update(
                winner_index as int,
                (Player {
                    chips: PlayerChips {
                        chips: (old(self).players@[winner_index as int].chips.chips + old(self).pot.total) as u32,
                    },
                    ..old(self).players@[winner_index as int]
                }),
            ),
            final(self).pot.total == 0,
            final(self).pot.current_bet == 0,
            final(self).pot.contributions@.len() == old(self).pot.contributions@.len(),
            final(self).pot.player_bets@.len() == old(self).pot.player_bets@.len(),
            forall|i: int|
                0 <= i < final(self).pot.contributions@.len() ==> final(self).pot.contributions@[i] == 0,
            forall|i: int|
                0 <= i < final(self).pot.player_bets@.len() ==> final(self).pot.player_bets@[i]
                    == 0,
            final(self).deck.cards@ == old(self).deck.cards@,
            final(self).board@ == old(self).board@,
            final(self).phase == old(self).phase,
            final(self).winner == old(self).winner,
            final(self).current_turn_index == old(self).current_turn_index,
            final(self).player_has_acted@ == old(self).player_has_acted@,
            final(self).chips_in_play() == old(self).chips_in_play(),
    {
        let w = winner_index;
        let winnings = self.pot.total;
        proof {
            assert(stacks_of(self.players@)[w as int] == self.players@[w as int].chips.chips);
            lemma_sum_elem_le(stacks_of(self.players@), w as int);
        }
        self.players[w].chips.chips = self.players[w].chips.chips + winnings;
        proof {
            let ghost updated = (Player {
                chips: PlayerChips {
                    chips: (old(self).players@[w as int].chips.chips + winnings) as u32,
                },
                ..old(self).players@[w as int]
            });
            assert(self.players@ =~= old(self).players@.update(w as int, updated));
            assert(stacks_of(self.players@) =~= stacks_of(old(self).players@).update(
                w as int,
                (old(self).players@[w as int].chips.chips + winnings) as u32,
            ));
            lemma_sum_update(
                stacks_of(old(self).players@),
                w as int,
                (old(self).players@[w as int].chips.chips + winnings) as u32,
            );
            lemma_dealt_update_same_hand(old(self).players@, w as int, updated);
        }
        self.pot.reset();
        proof {
            assert(self.all_cards() =~= old(self).all_cards());
        }
    }

    /// Opens a fresh betting round in the pot; the hand's total stands.
    pub fn reset_round(&mut self)
        requires
            old(self).wf(),
        ensures
            final(self).wf(),
            final(self).pot.total == old(self).pot.total,
            final(self).pot.contributions@ == old(self).pot.contributions@,
            final(self).pot.current_bet == 0,
            final(self).pot.player_bets@.len() == old(self).pot.player_bets@.len(),
            forall|i: int|
                0 <= i < final(self).pot.player_bets@.len() ==> final(self).pot.player_bets@[i]
                    == 0,
            final(self).players@ == old(self).players@,
            final(self).deck.cards@ == old(self).deck.cards@,
            final(self).board@ == old(self).board@,
            final(self).phase == old(self).phase,
            final(self).winner == old(self).winner,
            final(self).current_turn_index == old(self).current_turn_index,
            final(self).player_has_acted@ == old(self).player_has_acted@,
            final(self).chips_in_play() == old(self).chips_in_play(),
    {
        self.pot.reset_round();
    }

    /// Same fresh betting round, under the name the rendering side used.
    pub fn reset_pot(&mut self)
        requires
            old(self).wf(),
        ensures
            final(self).wf(),
            final(self).pot.total == old(self).pot.total,
            final(self).pot.current_bet == 0,
            final(self).players@ == old(self).players@,
            final(self).chips_in_play() == old(self).chips_in_play(),
    {
        self.pot.reset_round();
    }

    /// Starts the match over: the pot is emptied and every seat gets a fresh
    /// 1000-chip stack with its folded flag cleared.
    pub fn reset_game(&mut self)
        requires
            old(self).wf(),
            old(self).players@.len() * 1000 <= u32::MAX,
        ensures
            final(self).wf(),
            final(self).players@.len() == old(self).players@.len(),
            forall|i: int|
                0 <= i < final(self).players@.len() ==> {
                    &&& final(self).players@[i].chips.chips == 1000
                    &&& !final(self).players@[i].is_folded
                    &&& final(self).players@[i].hand == old(self).players@[i].hand
                    &&& final(self).players@[i].name == old(self).players@[i].name
                    &&& final(self).players@[i].is_all_in == old(self).players@[i].is_all_in
                },
            final(self).pot.total == 0,
            final(self).pot.current_bet == 0,
            final(self).deck.cards@ == old(self).deck.cards@,
            final(self).board@ == old(self).board@,
            final(self).phase == old(self).phase,
            final(self).winner == old(self).winner,
            final(self).current_turn_index == old(self).current_turn_index,
    {
        self.pot.reset();
        let mut i: usize = 0;
        while i < self.players.len()
            invariant
                i <= self.players@.len(),
                self.players@.len() == old(self).players@.len(),
                forall|j: int|
                    0 <= j < i ==> {
                        &&& self.players@[j].chips.chips == 1000
                        &&& !self.players@[j].is_folded
                        &&& self.players@[j].hand == old(self).players@[j].hand
                        &&& self.players@[j].name == old(self).players@[j].name
                        &&& self.players@[j].is_all_in == old(self).players@[j].is_all_in
                    },
                forall|j: int|
                    i <= j < self.players@.len() ==> self.players@[j] == old(self).players@[j],
                dealt_cards(self.players@) == dealt_cards(old(self).players@),
                self.deck == old(self).deck,
                self.board == old(self).board,
                self.phase == old(self).phase,
                self.winner == old(self).winner,
                self.current_turn_index == old(self).current_turn_index,
                self.player_has_acted == old(self).player_has_acted,
                self.pot.wf(),
                self.pot.bet_consistent(),
                self.pot.total == 0,
                self.pot.current_bet == 0,
                self.pot.contributions@.len() == old(self).pot.contributions@.len(),
                self.pot.player_bets@.len() == old(self).pot.player_bets@.len(),
            decreases self.players@.len() - i,
        {
            let ghost prev = self.players@;
            self.players[i].chips.chips = 1000;
            self.players[i].is_folded = false;
            proof {
                let ghost updated = (Player {
                    chips: PlayerChips { chips: 1000 },
                    is_folded: false,
                    ..prev[i as int]
                });
                assert(self.players@ =~= prev.update(i as int, updated));
                lemma_dealt_update_same_hand(prev, i as int, updated);
            }
            i = i + 1;
        }
        proof {
            lemma_sum_constant(stacks_of(self.players@), 1000);
            assert(self.all_cards() =~= old(self).all_cards());
        }
    }

    /// `w` holds the best remaining hand: `w` has not folded, no seat still
    /// in beats `w`'s rank, and among equal ranks `w` is the first seat.
    pub open spec fn is_best_seat(self, w: int) -> bool {
        &&& 0 <= w < self.players@.len()
        &&& !self.players@[w].is_folded
        &&& forall|j: int|
            0 <= j < self.players@.len() && !self.players@[j].is_folded ==> self.seat_rank(j)
                <= self.seat_rank(w)
        &&& forall|j: int| 0 <= j < w && !self.players@[j].is_folded ==> self.seat_rank(j) < self.seat_rank(w)
    }

    /// Ranks every remaining hand against the board through the rank oracle
    /// and picks the seat holding the best one; equal ranks go to the
    /// earliest seat.
    pub fn best_hand(&self) -> (w: usize)
        requires
            self.wf(),
            exists|i: int| 0 <= i < self.players@.len() && !self.players@[i].is_folded,
        ensures
            self.is_best_seat(w as int),
    {
        let mut best_index: usize = 0;
        let mut best_rank: u32 = 0;
        let mut found = false;
        let mut i: usize = 0;
        while i < self.players.len()
            invariant
                self.wf(),
                i <= self.players@.len(),
                found ==> best_index < i && !self.players@[best_index as int].is_folded
                    && best_rank == self.seat_rank(best_index as int),
                found ==> forall|j: int|
                    0 <= j < i && !self.players@[j].is_folded ==> self.seat_rank(j) <= best_rank,
                found ==> forall|j: int|
                    0 <= j < best_index && !self.players@[j].is_folded ==> self.seat_rank(j)
                        < best_rank,
                !found ==> forall|j: int| 0 <= j < i ==> self.players@[j].is_folded,
            decreases self.players@.len() - i,
        {
            if !self.players[i].is_folded {
                proof {
                    lemma_hand_board_no_dup(
                        self.deck.cards@,
                        self.board@,
                        self.players@,
                        i as int,
                    );
                    crate::eval::lemma_card_indices_no_dup(
                        self.players@[i as int].hand.cards@ + self.board@,
                    );
                }
                let (rank, _label) = self.players[i].hand.evaluate(&self.board, &self.eval);
                if !found || rank > best_rank {
                    best_rank = rank;
                    best_index = i;
                    found = true;
                }
            }
            i = i + 1;
        }
        proof {
            if !found {
                let j = choose|j: int|
                    0 <= j < self.players@.len() && !self.players@[j].is_folded;
                assert(false);
            }
        }
        best_index
    }

    /// Ranks the remaining hands, hands the whole pot to the winning seat,
    /// and zeroes the pot.
    pub fn award_pot_to_winner(&mut self)
        requires
            old(self).wf(),
            exists|i: int| 0 <= i < old(self).players@.len() && !old(self).players@[i].is_folded,
        ensures
            final(self).wf(),
            exists|w: int|
                #[trigger] old(self).is_best_seat(w) && final(self).players@ == old(self).players@.update(
                    w,
                    (Player {
                        chips: PlayerChips {
                            chips: (old(self).players@[w].chips.chips + old(self).pot.total) as u32,
                        },
                        ..old(self).players@[w]
                    }),
                ),
            final(self).pot.total == 0,
            final(self).pot.current_bet == 0,
            forall|i: int|
                0 <= i < final(self).pot.contributions@.len() ==> final(self).pot.contributions@[i] == 0,
            forall|i: int|
                0 <= i < final(self).pot.player_bets@.len() ==> final(self).pot.player_bets@[i]
                    == 0,
            final(self).pot.contributions@.len() == old(self).pot.contributions@.len(),
            final(self).pot.player_bets@.len() == old(self).pot.player_bets@.len(),
            final(self).deck.cards@ == old(self).deck.cards@,
            final(self).board@ == old(self).board@,
            final(self).phase == old(self).phase,
            final(self).winner == old(self).winner,
            final(self).current_turn_index == old(self).current_turn_index,
            final(self).player_has_acted@ == old(self).player_has_acted@,
            final(self).chips_in_play() == old(self).chips_in_play(),
    {
        let winner_index = self.best_hand();
        self.award_pot_to_specific_player(winner_index);
    }

    /// Takes every card back, rebuilds and shuffles the deck, and deals two
    /// fresh hole cards to each seat; chips, names and flags stay put.
    fn redeal(&mut self)
        requires
            old(self).wf(),
        ensures
            final(self).wf(),
            final(self).board@.len() == 0,
            final(self).players@.len() == old(self).players@.len(),
            forall|i: int|
                0 <= i < final(self).players@.len() ==> {
                    &&& final(self).players@[i].name == old(self).players@[i].name
                    &&& final(self).players@[i].chips == old(self).players@[i].chips
                    &&& final(self).players@[i].is_folded == old(self).players@[i].is_folded
                    &&& final(self).players@[i].is_all_in == old(self).players@[i].is_all_in
                    &&& final(self).players@[i].hand.cards@.len() == (if 2 * i + 2 <= 52 {
                        2int
                    } else {
                        0int
                    })
                },
            final(self).pot == old(self).pot,
            final(self).phase == old(self).phase,
            final(self).winner == old(self).winner,
            final(self).current_turn_index == old(self).current_turn_index,
            final(self).player_has_acted@ == old(self).player_has_acted@,
            final(self).chips_in_play() == old(self).chips_in_play(),
    {
        self.board.clear();
        let mut i: usize = 0;
        while i < self.players.len()
            invariant
                i <= self.players@.len(),
                self.players@.len() == old(self).players@.len(),
                forall|j: int|
                    0 <= j < i ==> {
                        &&& self.players@[j].hand.cards@.len() == 0
                        &&& self.players@[j].name == old(self).players@[j].name
                        &&& self.players@[j].chips == old(self).players@[j].chips
                        &&& self.players@[j].is_folded == old(self).players@[j].is_folded
                        &&& self.players@[j].is_all_in == old(self).players@[j].is_all_in
                    },
                forall|j: int|
                    i <= j < self.players@.len() ==> self.players@[j] == old(self).players@[j],
                self.board@.len() == 0,
                self.deck == old(self).deck,
                self.pot == old(self).pot,
                self.phase == old(self).phase,
                self.winner == old(self).winner,
                self.current_turn_index == old(self).current_turn_index,
                self.player_has_acted == old(self).player_has_acted,
            decreases self.players@.len() - i,
        {
            self.players[i].hand.cards = Vec::new();
            i = i + 1;
        }
        self.deck.reset();
        self.deck.shuffle();
        proof {
            lemma_full_deck_no_duplicates();
            lemma_dealt_all_empty(self.players@);
            crate::dealing::lemma_no_dup_like(full_deck(), self.deck.cards@);
            assert(self.deck.cards@ + self.board@ + dealt_cards(self.players@)
                =~= self.deck.cards@);
        }
        let ghost mid_players = self.players@;
        let mut k: usize = 0;
        while k < self.players.len()
            invariant
                k <= self.players@.len(),
                self.players@.len() == old(self).players@.len(),
                forall|j: int|
                    0 <= j < self.players@.len() ==> {
                        &&& self.players@[j].name == old(self).players@[j].name
                        &&& self.players@[j].chips == old(self).players@[j].chips
                        &&& self.players@[j].is_folded == old(self).players@[j].is_folded
                        &&& self.players@[j].is_all_in == old(self).players@[j].is_all_in
                    },
                forall|j: int|
                    0 <= j < k ==> self.players@[j].hand.cards@.len() == (if 2 * j + 2 <= 52 {
                        2int
                    } else {
                        0int
                    }),
                forall|j: int|
                    k <= j < self.players@.len() ==> self.players@[j].hand.cards@.len() == 0,
                self.board@.len() == 0,
                self.deck.cards@.len() == (if 2 * k <= 52 {
                    52 - 2 * k
                } else {
                    0int
                }),
                (self.deck.cards@ + self.board@ + dealt_cards(self.players@)).no_duplicates(),
                self.pot == old(self).pot,
                self.phase == old(self).phase,
                self.winner == old(self).winner,
                self.current_turn_index == old(self).current_turn_index,
                self.player_has_acted == old(self).player_has_acted,
            decreases self.players@.len() - k,
        {
            let ghost prev_deck = self.deck.cards@;
            let ghost prev_players = self.players@;
            match self.deck.draw(2) {
                Ok(two) => {
                    self.players[k].hand.cards = two;
                    proof {
                        let p = self.players@[k as int];
                        assert(self.players@ =~= prev_players.update(k as int, p));
                        crate::dealing::lemma_deal_no_dup(
                            prev_deck,
                            self.board@,
                            prev_players,
                            k as int,
                            p,
                            2,
                        );
                    }
                },
                Err(_) => {},
            }
            k = k + 1;
        }
        proof {
            assert(stacks_of(self.players@) =~= stacks_of(old(self).players@));
            assert(self.all_cards() == self.deck.cards@ + self.board@ + dealt_cards(
                self.players@,
            ));
        }
    }

    /// Starts a fresh hand from scratch: the pot is emptied, every seat's
    /// folded flag is cleared, the deck is rebuilt and shuffled, everyone
    /// gets two hole cards, and play opens at seat 0 in the preflop round.
    pub fn start_game(&mut self)
        requires
            old(self).wf(),
        ensures
            final(self).wf(),
            final(self).phase == GamePhase::Preflop,
            final(self).winner is None,
            final(self).current_turn_index == 0,
            final(self).players@.len() == old(self).players@.len(),
            final(self).player_has_acted@.len() == old(self).players@.len(),
            forall|i: int|
                0 <= i < final(self).player_has_acted@.len() ==> !final(self).player_has_acted@[i],
            forall|i: int|
                0 <= i < final(self).players@.len() ==> {
                    &&& final(self).players@[i].name == old(self).players@[i].name
                    &&& final(self).players@[i].chips == old(self).players@[i].chips
                    &&& !final(self).players@[i].is_folded
                    &&& final(self).players@[i].is_all_in == old(self).players@[i].is_all_in
                    &&& final(self).players@[i].hand.cards@.len() == (if 2 * i + 2 <= 52 {
                        2int
                    } else {
                        0int
                    })
                },
            final(self).board@.len() == 0,
            final(self).pot.total == 0,
            final(self).pot.current_bet == 0,
            forall|i: int|
                0 <= i < final(self).pot.contributions@.len() ==> final(self).pot.contributions@[i] == 0,
            forall|i: int|
                0 <= i < final(self).pot.player_bets@.len() ==> final(self).pot.player_bets@[i]
                    == 0,
            final(self).chips_in_play() == stack_sum(old(self).players@),
    {
        self.player_has_acted = vec![false; self.players.len()];
        let mut i: usize = 0;
        while i < self.players.len()
            invariant
                i <= self.players@.len(),
                self.players@.len() == old(self).players@.len(),
                forall|j: int|
                    0 <= j < i ==> {
                        &&& !self.players@[j].is_folded
                        &&& self.players@[j].name == old(self).players@[j].name
                        &&& self.players@[j].chips == old(self).players@[j].chips
                        &&& self.players@[j].is_all_in == old(self).players@[j].is_all_in
                        &&& self.players@[j].hand == old(self).players@[j].hand
                    },
                forall|j: int|
                    i <= j < self.players@.len() ==> self.players@[j] == old(self).players@[j],
                dealt_cards(self.players@) == dealt_cards(old(self).players@),
                self.deck == old(self).deck,
                self.board == old(self).board,
                self.pot == old(self).pot,
                self.phase == old(self).phase,
                self.winner == old(self).winner,
                self.current_turn_index == old(self).current_turn_index,
                self.player_has_acted@.len() == old(self).players@.len(),
                forall|j: int|
                    0 <= j < self.player_has_acted@.len() ==> !self.player_has_acted@[j],
            decreases self.players@.len() - i,
        {
            let ghost prev = self.players@;
            self.players[i].is_folded = false;
            proof {
                let ghost updated = (Player { is_folded: false, ..prev[i as int] });
                assert(self.players@ =~= prev.update(i as int, updated));
                lemma_dealt_update_same_hand(prev, i as int, updated);
            }
            i = i + 1;
        }
        self.pot.reset();
        proof {
            assert(stacks_of(self.players@) =~= stacks_of(old(self).players@));
        }
        self.redeal();
        self.phase = GamePhase::Preflop;
        self.winner = None;
        self.current_turn_index = 0;
    }

    /// Seats one more player with a fresh stack and no cards, widening the
    /// ledgers to cover it; the pot restarts empty for the larger table.
    pub fn add_seat(&mut self, initial_chips: u32) -> (seat: usize)
        requires
            old(self).wf(),
            stack_sum(old(self).players@) + initial_chips <= u32::MAX,
        ensures
            final(self).wf(),
            seat == old(self).players@.len(),
            final(self).players@.len() == old(self).players@.len() + 1,
            forall|i: int|
                0 <= i < old(self).players@.len() ==> final(self).players@[i] == old(self).players@[i],
            final(self).players@[seat as int].chips.chips == initial_chips,
            final(self).players@[seat as int].hand.cards@.len() == 0,
            !final(self).players@[seat as int].is_folded,
            final(self).player_has_acted@.len() == final(self).players@.len(),
            forall|i: int|
                0 <= i < old(self).player_has_acted@.len() ==> final(self).player_has_acted@[i]
                    == old(self).player_has_acted@[i],
            !final(self).player_has_acted@[seat as int],
            final(self).pot.total == 0,
            final(self).pot.current_bet == 0,
            final(self).pot.contributions@.len() == final(self).players@.len(),
            forall|i: int|
                0 <= i < final(self).pot.contributions@.len() ==> final(self).pot.contributions@[i] == 0,
            forall|i: int|
                0 <= i < final(self).pot.player_bets@.len() ==> final(self).pot.player_bets@[i]
                    == 0,
            final(self).deck.cards@ == old(self).deck.cards@,
            final(self).board@ == old(self).board@,
            final(self).phase == old(self).phase,
            final(self).winner == old(self).winner,
            final(self).current_turn_index == old(self).current_turn_index,
    {
        let p = Player::new(initial_chips);
        let seat = self.players.len();
        proof {
            lemma_dealt_push(self.players@, p);
            assert(dealt_cards(self.players@.push(p)) =~= dealt_cards(self.players@));
            assert(stacks_of(self.players@.push(p)) =~= stacks_of(self.players@).push(
                initial_chips,
            ));
            lemma_sum_push(stacks_of(self.players@), initial_chips);
        }
        self.players.push(p);
        self.player_has_acted.push(false);
        self.pot = Pot::new(self.players.len());
        proof {
            assert(self.all_cards() =~= old(self).all_cards());
        }
        seat
    }

    /// Deals `cards_wanted` community cards from the top of the deck onto
    /// the board; a deck too short to serve them is left untouched.
    fn deal_to_board(&mut self, cards_wanted: usize)
        requires
            old(self).wf(),
        ensures
            final(self).wf(),
            final(self).players@ == old(self).players@,
            final(self).pot == old(self).pot,
            final(self).phase == old(self).phase,
            final(self).winner == old(self).winner,
            final(self).current_turn_index == old(self).current_turn_index,
            final(self).player_has_acted@ == old(self).player_has_acted@,
            final(self).chips_in_play() == old(self).chips_in_play(),
            old(self).deck.cards@.len() >= cards_wanted ==> {
                &&& final(self).board@ == old(self).board@ + old(self).deck.cards@.skip(
                    old(self).deck.cards@.len() - cards_wanted,
                ).reverse()
                &&& final(self).deck.cards@ == old(self).deck.cards@.take(
                    old(self).deck.cards@.len() - cards_wanted,
                )
            },
            old(self).deck.cards@.len() < cards_wanted ==> {
                &&& final(self).board@ == old(self).board@
                &&& final(self).deck.cards@ == old(self).deck.cards@
            },
    {
        match self.deck.draw(cards_wanted) {
            Ok(mut cards) => {
                proof {
                    crate::dealing::lemma_board_extend_no_dup(
                        old(self).deck.cards@,
                        old(self).board@,
                        old(self).players@,
                        cards_wanted as int,
                    );
                }
                self.board.append(&mut cards);
            },
            Err(_) => {},
        }
    }

    /// Moves the table one phase forward: each betting round deals its
    /// community cards and opens a fresh round of bets, and showdown awards
    /// the pot to the best remaining hand before the next hand is dealt.
    /// Every seat's acted flag is cleared. The idle table stays idle.
    pub fn advance_phase(&mut self)
        requires
            old(self).wf(),
            old(self).phase == GamePhase::Showdown ==> exists|i: int|
                0 <= i < old(self).players@.len() && !old(self).players@[i].is_folded,
        ensures
            final(self).wf(),
            final(self).players@.len() == old(self).players@.len(),
            final(self).player_has_acted@.len() == old(self).players@.len(),
            forall|i: int|
                0 <= i < final(self).player_has_acted@.len() ==> !final(self).player_has_acted@[i],
            final(self).chips_in_play() == old(self).chips_in_play(),
            final(self).winner == old(self).winner,
            final(self).current_turn_index == old(self).current_turn_index,
            old(self).phase == GamePhase::Waiting ==> {
                &&& final(self).phase == GamePhase::Waiting
                &&& final(self).players@ == old(self).players@
                &&& final(self).pot == old(self).pot
                &&& final(self).deck.cards@ == old(self).deck.cards@
                &&& final(self).board@ == old(self).board@
            },
            old(self).phase == GamePhase::Preflop ==> final(self).phase == GamePhase::Flop,
            old(self).phase == GamePhase::Flop ==> final(self).phase == GamePhase::Turn,
            old(self).phase == GamePhase::Turn ==> final(self).phase == GamePhase::River,
            old(self).phase == GamePhase::River ==> final(self).phase == GamePhase::Showdown,
            old(self).phase == GamePhase::Showdown ==> final(self).phase == GamePhase::Preflop,
            (old(self).phase == GamePhase::Preflop || old(self).phase == GamePhase::Flop || old(self).phase == GamePhase::Turn || old(self).phase == GamePhase::River) ==> {
                &&& final(self).players@ == old(self).players@
                &&& final(self).pot.total == old(self).pot.total
                &&& final(self).pot.contributions@ == old(self).pot.contributions@
                &&& final(self).pot.current_bet == 0
                &&& forall|i: int|
                    0 <= i < final(self).pot.player_bets@.len() ==> final(self).pot.player_bets@[i] == 0
            },
            old(self).phase == GamePhase::Preflop && old(self).deck.cards@.len() >= 3 ==> {
                &&& final(self).board@ == old(self).board@ + old(self).deck.cards@.skip(
                    old(self).deck.cards@.len() - 3,
                ).reverse()
                &&& final(self).deck.cards@ == old(self).deck.cards@.take(
                    old(self).deck.cards@.len() - 3,
                )
            },
            (old(self).phase == GamePhase::Flop || old(self).phase == GamePhase::Turn) && old(self).deck.cards@.len() >= 1 ==> {
                &&& final(self).board@ == old(self).board@ + old(self).deck.cards@.skip(
                    old(self).deck.cards@.len() - 1,
                ).reverse()
                &&& final(self).deck.cards@ == old(self).deck.cards@.take(
                    old(self).deck.cards@.len() - 1,
                )
            },
            old(self).phase == GamePhase::River ==> {
                &&& final(self).board@ == old(self).board@
                &&& final(self).deck.cards@ == old(self).deck.cards@
            },
            old(self).phase == GamePhase::Showdown ==> {
                &&& final(self).board@.len() == 0
                &&& final(self).pot.total == 0
                &&& final(self).pot.current_bet == 0
                &&& exists|w: int|
                    #[trigger] old(self).is_best_seat(w) && forall|i: int|
                        0 <= i < final(self).players@.len() ==> final(self).players@[i].chips.chips == old(self).players@[i].chips.chips + (if i == w {
                            old(self).pot.total as int
                        } else {
                            0int
                        })
                &&& forall|i: int|
                    0 <= i < final(self).players@.len() ==> {
                        &&& !final(self).players@[i].is_folded
                        &&& final(self).players@[i].name == old(self).players@[i].name
                        &&& final(self).players@[i].hand.cards@.len() == (if 2 * i + 2 <= 52 {
                            2int
                        } else {
                            0int
                        })
                    }
            },
    {
        self.player_has_acted = vec![false; self.players.len()];

        match self.phase {
            GamePhase::Waiting => {},
            GamePhase::Preflop => {
                self.deal_to_board(3);
                self.pot.reset_round();
                self.phase = GamePhase::Flop;
            },
            GamePhase::Flop => {
                self.deal_to_board(1);
                self.pot.reset_round();
                self.phase = GamePhase::Turn;
            },
            GamePhase::Turn => {
                self.deal_to_board(1);
                self.pot.reset_round();
                self.phase = GamePhase::River;
            },
            GamePhase::River => {
                self.pot.reset_round();
                self.phase = GamePhase::Showdown;
            },
            GamePhase::Showdown => {
                let w = self.best_hand();
                proof {
                    assert(self.players@ == old(self).players@);
                    assert(self.board@ == old(self).board@);
                    assert forall|j: int|
                        0 <= j < old(self).players@.len() && !old(self).players@[j].is_folded implies old(self).seat_rank(j) <= old(self).seat_rank(w as int) by {
                        assert(self.seat_rank(j) <= self.seat_rank(w as int));
                        assert(self.seat_rank(j) == old(self).seat_rank(j));
                        assert(self.seat_rank(w as int) == old(self).seat_rank(w as int));
                    }
                    assert forall|j: int|
                        0 <= j < w as int && !old(self).players@[j].is_folded implies old(self).seat_rank(j) < old(self).seat_rank(w as int) by {
                        assert(self.seat_rank(j) < self.seat_rank(w as int));
                        assert(self.seat_rank(j) == old(self).seat_rank(j));
                        assert(self.seat_rank(w as int) == old(self).seat_rank(w as int));
                    }
                    assert(old(self).is_best_seat(w as int));
                }
                self.award_pot_to_specific_player(w);
                self.pot.reset_round();
                proof {
                    lemma_sum_elem_le(stacks_of(old(self).players@), w as int);
                    assert(stacks_of(old(self).players@)[w as int] == old(
                        self,
                    ).players@[w as int].chips.chips);
                    assert forall|j: int|
                        0 <= j < self.players@.len() implies (self.players@[j].name == old(self).players@[j].name && self.players@[j].hand == old(self).players@[j].hand && self.players@[j].chips.chips == old(self).players@[j].chips.chips + (if j == w as int {
                            old(self).pot.total as int
                        } else {
                            0int
                        })) by {
                        if j != w as int {
                            assert(self.players@[j] == old(self).players@[j]);
                        }
                    }
                }
                let mut i: usize = 0;
                while i < self.players.len()
                    invariant
                        i <= self.players@.len(),
                        self.players@.len() == old(self).players@.len(),
                        w < self.players@.len(),
                        forall|j: int| 0 <= j < i ==> !self.players@[j].is_folded,
                        forall|j: int|
                            0 <= j < self.players@.len() ==> {
                                &&& self.players@[j].name == old(self).players@[j].name
                                &&& self.players@[j].hand == old(self).players@[j].hand
                                &&& self.players@[j].chips.chips == old(self).players@[j].chips.chips + (if j == w as int {
                                    old(self).pot.total as int
                                } else {
                                    0int
                                })
                            },
                        self.wf(),
                        self.pot.total == 0,
                        self.pot.current_bet == 0,
                        forall|j: int|
                            0 <= j < self.pot.player_bets@.len() ==> self.pot.player_bets@[j]
                                == 0,
                        self.pot.contributions@.len() == old(self).pot.contributions@.len(),
                        self.pot.player_bets@.len() == old(self).pot.player_bets@.len(),
                        self.deck.cards@ == old(self).deck.cards@,
                        self.board@ == old(self).board@,
                        self.winner == old(self).winner,
                        self.current_turn_index == old(self).current_turn_index,
                        self.phase == old(self).phase,
                        self.player_has_acted@.len() == old(self).players@.len(),
                        forall|j: int|
                            0 <= j < self.player_has_acted@.len() ==> !self.player_has_acted@[j],
                        stack_sum(self.players@) + self.pot.total == old(self).chips_in_play(),
                    decreases self.players@.len() - i,
                {
                    let ghost prev = self.players@;
                    self.players[i].is_folded = false;
                    proof {
                        let ghost updated = (Player { is_folded: false, ..prev[i as int] });
                        assert(self.players@ =~= prev.update(i as int, updated));
                        lemma_dealt_update_same_hand(prev, i as int, updated);
                        assert(stacks_of(self.players@) =~= stacks_of(prev));
                    }
                    i = i + 1;
                }
                self.redeal();
                self.phase = GamePhase::Preflop;
                proof {
                    assert(old(self).is_best_seat(w as int) && forall|i: int|
                        0 <= i < self.players@.len() ==> self.players@[i].chips.chips == old(self).players@[i].chips.chips + (if i == w as int {
                            old(self).pot.total as int
                        } else {
                            0int
                        }));
                }
            },
        }
    }
}

} // verus!
