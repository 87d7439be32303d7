use vstd::prelude::*;

use crate::game::Game;
use crate::structs::card::Card;
use crate::structs::enums::{
    ActionError, ClientMessage, GamePhase, GameStateInfo, PlayerPublicInfo,
};
use crate::structs::player::Player;

verus! {

/// How many of the first `k` seats are still in the hand.
pub open spec fn alive_upto(players: Seq<Player>, k: int) -> int
    decreases k,
{
    if k <= 0 {
        0
    } else {
        alive_upto(players, k - 1) + if players[k - 1].is_folded {
            0int
        } else {
            1int
        }
    }
}

/// How many seats are still in the hand.
pub open spec fn alive_count(players: Seq<Player>) -> int {
    alive_upto(players, players.len() as int)
}

/// The round-closing gate over explicit components: every seat still in has
/// acted, and every seat still in has matched the standing bet.
pub open spec fn gate_over(
    players: Seq<Player>,
    acted: Seq<bool>,
    bets: Seq<u32>,
    current_bet: u32,
) -> bool {
    &&& forall|i: int| 0 <= i < players.len() ==> players[i].is_folded || acted[i]
    &&& forall|i: int| 0 <= i < players.len() ==> players[i].is_folded || bets[i] == current_bet
}

/// Whether the round-closing gate holds right after `seat` performs `msg` on
/// the table `g`: the action's effect on the folded flags, the acted flags
/// and the round bets is spelled out per action.
pub open spec fn post_action_gate(g: Game, seat: int, msg: ClientMessage) -> bool {
    match msg {
        ClientMessage::Join(_) => false,
        ClientMessage::Bet(amount) => gate_over(
            g.players@,
            Seq::new(g.players@.len(), |j: int| j == seat),
            g.pot.player_bets@.update(seat, (g.pot.player_bets@[seat] + amount) as u32),
            amount,
        ),
        ClientMessage::Check => gate_over(
            g.players@,
            g.player_has_acted@.update(seat, true),
            g.pot.player_bets@,
            g.pot.current_bet,
        ),
        ClientMessage::Call => gate_over(
            g.players@,
            g.player_has_acted@.update(seat, true),
            g.pot.player_bets@.update(
                seat,
                (if g.pot.current_bet >= g.pot.player_bets@[seat] {
                    g.pot.current_bet
                } else {
                    g.pot.player_bets@[seat]
                }) as u32,
            ),
            (if g.pot.current_bet >= g.pot.player_bets@[seat] {
                g.pot.current_bet
            } else {
                g.pot.player_bets@[seat]
            }) as u32,
        ),
        ClientMessage::Fold => gate_over(
            g.players@.update(seat, (Player { is_folded: true, ..g.players@[seat] })),
            g.player_has_acted@.update(seat, true),
            g.pot.player_bets@,
            g.pot.current_bet,
        ),
    }
}

/// What the table answers after one accepted client message: the winner to
/// announce, if any, and whether the hand has reached showdown, so that the
/// serving layer schedules the delayed restart.
#[derive(Debug)]
pub struct StepOk {
    pub winner: Option<usize>,
    pub showdown: bool,
}

impl Game {
    /// Advances the phase exactly when the round may close: every seat
    /// still in the hand has acted since the last raise and has matched the
    /// standing bet. Otherwise the table is left untouched.
    pub fn maybe_advance(&mut self) -> (advanced: bool)
        requires
            old(self).wf(),
            old(self).phase == GamePhase::Showdown ==> exists|i: int|
                0 <= i < old(self).players@.len() && !old(self).players@[i].is_folded,
        ensures
            final(self).wf(),
            advanced == (old(self).all_acted_spec() && old(self).non_folded_match_bet_spec()),
            !advanced ==> *final(self) == *old(self),
            advanced ==> {
                &&& final(self).players@.len() == old(self).players@.len()
                &&& final(self).chips_in_play() == old(self).chips_in_play()
                &&& final(self).winner == old(self).winner
                &&& final(self).current_turn_index == old(self).current_turn_index
                &&& (old(self).phase == GamePhase::Waiting ==> final(self).phase
                    == GamePhase::Waiting)
                &&& (old(self).phase == GamePhase::Preflop ==> final(self).phase
                    == GamePhase::Flop)
                &&& (old(self).phase == GamePhase::Flop ==> final(self).phase == GamePhase::Turn)
                &&& (old(self).phase == GamePhase::Turn ==> final(self).phase == GamePhase::River)
                &&& (old(self).phase == GamePhase::River ==> final(self).phase
                    == GamePhase::Showdown)
                &&& (old(self).phase == GamePhase::Showdown ==> final(self).phase
                    == GamePhase::Preflop)
                &&& (old(self).phase != GamePhase::Showdown ==> final(self).players@ == old(self).players@)
                &&& (old(self).phase != GamePhase::Showdown ==> final(self).pot.total == old(self).pot.total)
            },
    {
        let all_acted = self.all_acted();
        let matched = self.non_folded_players_match_bet();
        if all_acted && matched {
            self.advance_phase();
            true
        } else {
            false
        }
    }

    /// Performs the delayed hand restart scheduled after a showdown, but
    /// only when the table is still at showdown: a table that has already
    /// moved on is left untouched.
    pub fn restart_hand(&mut self) -> (restarted: bool)
        requires
            old(self).wf(),
        ensures
            final(self).wf(),
            restarted == (old(self).phase == GamePhase::Showdown && alive_count(
                old(self).players@,
            ) >= 1),
            !restarted ==> *final(self) == *old(self),
            restarted ==> final(self).phase == GamePhase::Preflop,
            restarted ==> final(self).pot.total == 0,
            restarted ==> final(self).chips_in_play() == old(self).chips_in_play(),
    {
        if !(self.phase == GamePhase::Showdown) {
            return false;
        }
        let (alive, _first_alive) = self.count_alive();
        if alive == 0 {
            return false;
        }
        self.advance_phase();
        true
    }

    /// Counts the seats still in the hand, and finds the first of them.
    fn count_alive(&self) -> (r: (usize, usize))
        ensures
            r.0 == alive_count(self.players@),
            alive_count(self.players@) >= 1 ==> r.1 < self.players@.len() && !self.players@[r.1 as int].is_folded,
            alive_count(self.players@) == 1 ==> forall|j: int|
                0 <= j < self.players@.len() && !self.players@[j].is_folded ==> j == r.1 as int,
    {
        let mut count: usize = 0;
        let mut first: usize = 0;
        let mut i: usize = 0;
        while i < self.players.len()
            invariant
                i <= self.players@.len(),
                count == alive_upto(self.players@, i as int),
                count <= i,
                count == 0 ==> forall|j: int| 0 <= j < i ==> self.players@[j].is_folded,
                count >= 1 ==> first < i && !self.players@[first as int].is_folded,
                count == 1 ==> forall|j: int|
                    0 <= j < i && !self.players@[j].is_folded ==> j == first as int,
            decreases self.players@.len() - i,
        {
            if !self.players[i].is_folded {
                if count == 0 {
                    first = i;
                }
                count = count + 1;
            }
            i = i + 1;
        }
        (count, first)
    }

    /// The seat after `from` that has not folded, scanning forward and
    /// wrapping around the table.
    fn next_active_seat(&self, from: usize) -> (r: usize)
        requires
            from < self.players@.len(),
            exists|i: int| 0 <= i < self.players@.len() && !self.players@[i].is_folded,
        ensures
            r < self.players@.len(),
            !self.players@[r as int].is_folded,
    {
        let n = self.players.len();
        let mut r: usize = 0;
        let mut found = false;
        let mut j: usize = from + 1;
        while j < n
            invariant
                from + 1 <= j <= n,
                n == self.players@.len(),
                found ==> r < n && !self.players@[r as int].is_folded,
                !found ==> forall|m: int| from + 1 <= m < j ==> self.players@[m].is_folded,
            decreases n - j,
        {
            if !found && !self.players[j].is_folded {
                r = j;
                found = true;
            }
            j = j + 1;
        }
        let mut j2: usize = 0;
        while j2 <= from
            invariant
                j2 <= from + 1,
                from < n,
                n == self.players@.len(),
                found ==> r < n && !self.players@[r as int].is_folded,
                !found ==> forall|m: int| from + 1 <= m < n ==> self.players@[m].is_folded,
                !found ==> forall|m: int| 0 <= m < j2 ==> self.players@[m].is_folded,
            decreases from + 1 - j2,
        {
            if !found && !self.players[j2].is_folded {
                r = j2;
                found = true;
            }
            j2 = j2 + 1;
        }
        proof {
            if !found {
                let i = choose|i: int|
                    0 <= i < self.players@.len() && !self.players@[i].is_folded;
                assert(false);
            }
        }
        r
    }

    /// Handles one client message for the connection seated at `seat`,
    /// exactly as the serving loop does under the table lock: a `Join`
    /// renames the seat and starts the game once two seats are present;
    /// betting actions are validated (including turn order), applied, and
    /// followed by the turn advance and the round-closing check; a hand left
    /// with a single seat jumps straight to showdown and pays that seat.
    #[verifier::rlimit(60)]
    pub fn handle_message(&mut self, seat: usize, msg: ClientMessage) -> (r: Result<
        StepOk,
        ActionError,
    >)
        requires
            old(self).wf(),
        ensures
            final(self).wf(),
            r matches Err(_) ==> *final(self) == *old(self),
            (r matches Err(e) && e == ActionError::InvalidSeat) <==> seat >= old(self).players@.len(),
            (r matches Err(e) && e == ActionError::OutOfTurn) <==> (seat < old(self).players@.len() && !(msg matches ClientMessage::Join(_)) && seat != old(self).current_turn_index),
            !(msg matches ClientMessage::Join(_)) ==> final(self).chips_in_play() == old(self).chips_in_play(),
            final(self).phase != old(self).phase ==> {
                ||| (msg matches ClientMessage::Join(_) && old(self).phase == GamePhase::Waiting
                    && final(self).phase == GamePhase::Preflop && old(self).players@.len() >= 2)
                ||| (final(self).phase == GamePhase::Showdown && alive_count(final(self).players@)
                    == 1 && final(self).pot.total == 0)
                ||| post_action_gate(*old(self), seat as int, msg)
            },
            r matches Ok(s) ==> s.showdown == (final(self).phase == GamePhase::Showdown),
            r matches Ok(s) ==> (s.winner matches Some(w) ==> w < final(self).players@.len()
                && !final(self).players@[w as int].is_folded),
            msg matches ClientMessage::Join(_) ==> (r matches Ok(_) <==> seat < old(self).players@.len()),
            msg matches ClientMessage::Bet(amount) ==> (r matches Ok(_) <==> (seat < old(self).players@.len() && seat == old(self).current_turn_index && old(self).players@[seat as int].chips.chips >= amount && amount >= old(self).pot.current_bet)),
            msg matches ClientMessage::Check ==> (r matches Ok(_) <==> (seat < old(self).players@.len() && seat == old(self).current_turn_index && old(self).pot.player_bets@[seat as int] >= old(self).pot.current_bet)),
            msg matches ClientMessage::Call ==> (r matches Ok(_) <==> (seat < old(self).players@.len() && seat == old(self).current_turn_index && old(self).players@[seat as int].chips.chips >= old(self).to_call_spec(seat as int))),
            msg matches ClientMessage::Fold ==> (r matches Ok(_) <==> (seat < old(self).players@.len() && seat == old(self).current_turn_index)),
            msg matches ClientMessage::Fold ==> (r matches Ok(_) ==> (old(self).phase
                != GamePhase::Showdown ==> final(self).players@[seat as int].is_folded)),
            msg matches ClientMessage::Fold ==> (r matches Ok(s2) ==> (alive_count(
                old(self).players@.update(
                    seat as int,
                    (Player { is_folded: true, ..old(self).players@[seat as int] }),
                ),
            ) == 1 ==> {
                &&& final(self).phase == GamePhase::Showdown
                &&& final(self).pot.total == 0
                &&& s2.winner matches Some(w) && !final(self).players@[w as int].is_folded
                    && final(self).players@[w as int].chips.chips == old(
                    self,
                ).players@[w as int].chips.chips + old(self).pot.total
            })),
            msg matches ClientMessage::Join(name) ==> (r matches Ok(_) ==> final(self).players@[seat as int].name == name),
            msg matches ClientMessage::Bet(amount) ==> (r matches Ok(_) ==> (alive_count(
                old(self).players@,
            ) >= 2 ==> {
                &&& final(self).pot.total == old(self).pot.total + amount
                &&& final(self).pot.current_bet == amount
                &&& final(self).players@[seat as int].chips.chips == old(self).players@[seat as int].chips.chips - amount
                &&& final(self).phase == old(self).phase
            })),
            msg matches ClientMessage::Call ==> (r matches Ok(_) ==> (alive_count(
                old(self).players@,
            ) >= 2 && old(self).phase != GamePhase::Showdown ==> {
                &&& final(self).pot.total == old(self).pot.total + old(self).to_call_spec(
                    seat as int,
                )
                &&& final(self).players@[seat as int].chips.chips == old(self).players@[seat as int].chips.chips - old(self).to_call_spec(seat as int)
            })),
            msg matches ClientMessage::Check ==> (r matches Ok(_) ==> (alive_count(
                old(self).players@,
            ) >= 2 && old(self).phase != GamePhase::Showdown ==> {
                &&& final(self).pot.total == old(self).pot.total
                &&& final(self).players@[seat as int].chips.chips == old(self).players@[seat as int].chips.chips
            })),
    {
        if seat >= self.players.len() {
            return Err(ActionError::InvalidSeat);
        }
        let ghost orig_msg = msg;

        match msg {
            ClientMessage::Join(name) => {
                let ghost prev = self.players@;
                self.players[seat].name = name;
                proof {
                    let ghost updated = self.players@[seat as int];
                    assert(self.players@ =~= prev.update(seat as int, updated));
                    crate::dealing::lemma_dealt_update_same_hand(prev, seat as int, updated);
                    assert(crate::game::stacks_of(self.players@) =~= crate::game::stacks_of(
                        prev,
                    ));
                    assert(self.all_cards() =~= old(self).all_cards());
                }
                if self.players.len() >= 2 && self.phase == GamePhase::Waiting {
                    self.start_game();
                }
                let at_showdown = self.phase == GamePhase::Showdown;
                return Ok(StepOk { winner: None, showdown: at_showdown });
            },
            ClientMessage::Bet(amount) => {
                if seat != self.current_turn_index {
                    return Err(ActionError::OutOfTurn);
                }
                match self.bet(seat, amount) {
                    Ok(_) => {},
                    Err(e) => {
                        return Err(e);
                    },
                }
                self.mark_acted(seat);
                proof {
                    assert(self.player_has_acted@ =~= Seq::new(
                        self.players@.len(),
                        |j: int| j == seat as int,
                    ));
                }
            },
            ClientMessage::Check => {
                if seat != self.current_turn_index {
                    return Err(ActionError::OutOfTurn);
                }
                match self.check(seat) {
                    Ok(_) => {},
                    Err(e) => {
                        return Err(e);
                    },
                }
                self.mark_acted(seat);
            },
            ClientMessage::Call => {
                if seat != self.current_turn_index {
                    return Err(ActionError::OutOfTurn);
                }
                match self.call(seat) {
                    Ok(_) => {},
                    Err(e) => {
                        return Err(e);
                    },
                }
                self.mark_acted(seat);
            },
            ClientMessage::Fold => {
                if seat != self.current_turn_index {
                    return Err(ActionError::OutOfTurn);
                }
                self.fold(seat);
                self.mark_acted(seat);
            },
        }

        proof {
            match orig_msg {
                ClientMessage::Fold => {},
                ClientMessage::Join(_) => {},
                _ => {
                    lemma_alive_folded_congruence(old(self).players@, self.players@);
                },
            }
        }
        let (alive, sole) = self.count_alive();
        if alive == 1 {
            let w = sole;
            self.phase = GamePhase::Showdown;
            self.winner = Some(w);
            let ghost before_award = self.players@;
            self.award_pot_to_specific_player(w);
            proof {
                lemma_alive_folded_congruence(before_award, self.players@);
                match orig_msg {
                    ClientMessage::Fold => {
                        assert(before_award[seat as int].is_folded);
                        assert(!before_award[w as int].is_folded);
                        assert(w != seat);
                        crate::sums::lemma_sum_elem_le(
                            crate::game::stacks_of(before_award),
                            w as int,
                        );
                        assert(crate::game::stacks_of(before_award)[w as int]
                            == before_award[w as int].chips.chips);
                        assert(self.players@[w as int].chips.chips == old(
                            self,
                        ).players@[w as int].chips.chips + old(self).pot.total);
                        assert(!self.players@[w as int].is_folded);
                    },
                    _ => {},
                }
            }
            return Ok(StepOk { winner: Some(w), showdown: true });
        }
        if alive == 0 {
            let at_showdown = self.phase == GamePhase::Showdown;
            return Ok(StepOk { winner: None, showdown: at_showdown });
        }

        proof {
            lemma_alive_witness(self.players@);
        }
        let next = self.next_active_seat(self.current_turn_index);
        self.current_turn_index = next;

        let ghost pre = *self;
        proof {
            lemma_alive_witness(self.players@);
        }
        let advanced = self.maybe_advance();
        proof {
            if advanced {
                let i_seat = seat as int;
                match orig_msg {
                    ClientMessage::Join(_) => {
                        assert(false);
                    },
                    ClientMessage::Bet(_) => {
                        // A raise reopens the action, so with two or more
                        // seats still in, some other seat owes an action and
                        // the round cannot close here.
                        lemma_alive_upto_two(pre.players@, pre.players@.len() as int, i_seat);
                        let j = choose|j: int|
                            0 <= j < pre.players@.len() && !pre.players@[j].is_folded && j
                                != i_seat;
                        assert(pre.players@[j].is_folded || pre.player_has_acted@[j]);
                        assert(false);
                    },
                    ClientMessage::Check => {
                        let acted = old(self).player_has_acted@.update(i_seat, true);
                        assert forall|i: int|
                            0 <= i < old(self).players@.len() implies (old(self).players@[i].is_folded || acted[i]) by {
                            assert(pre.players@[i].is_folded || pre.player_has_acted@[i]);
                        }
                        assert forall|i: int|
                            0 <= i < old(self).players@.len() implies (old(self).players@[i].is_folded || old(self).pot.player_bets@[i] == old(self).pot.current_bet) by {
                            assert(pre.players@[i].is_folded || pre.pot.player_bets@[i]
                                == pre.pot.current_bet);
                        }
                    },
                    ClientMessage::Call => {
                        let new_bet = (if old(self).pot.current_bet >= old(self).pot.player_bets@[i_seat] {
                            old(self).pot.current_bet
                        } else {
                            old(self).pot.player_bets@[i_seat]
                        }) as u32;
                        let acted = old(self).player_has_acted@.update(i_seat, true);
                        let bets = old(self).pot.player_bets@.update(i_seat, new_bet);
                        assert forall|i: int|
                            0 <= i < old(self).players@.len() implies (old(self).players@[i].is_folded || acted[i]) by {
                            assert(pre.players@[i].is_folded || pre.player_has_acted@[i]);
                        }
                        assert forall|i: int|
                            0 <= i < old(self).players@.len() implies (old(self).players@[i].is_folded || bets[i] == new_bet) by {
                            assert(pre.players@[i].is_folded || pre.pot.player_bets@[i]
                                == pre.pot.current_bet);
                        }
                    },
                    ClientMessage::Fold => {
                        let folded_players = old(self).players@.update(
                            i_seat,
                            (Player { is_folded: true, ..old(self).players@[i_seat] }),
                        );
                        let acted = old(self).player_has_acted@.update(i_seat, true);
                        assert forall|i: int|
                            0 <= i < folded_players.len() implies (folded_players[i].is_folded
                            || acted[i]) by {
                            assert(pre.players@[i].is_folded || pre.player_has_acted@[i]);
                        }
                        assert forall|i: int|
                            0 <= i < folded_players.len() implies (folded_players[i].is_folded
                            || old(self).pot.player_bets@[i] == old(self).pot.current_bet) by {
                            assert(pre.players@[i].is_folded || pre.pot.player_bets@[i]
                                == pre.pot.current_bet);
                        }
                    },
                }
                assert(post_action_gate(*old(self), i_seat, orig_msg));
            }
        }

        let mut winner: Option<usize> = None;
        if self.phase == GamePhase::Showdown {
            proof {
                lemma_alive_witness(self.players@);
            }
            let w = self.best_hand();
            winner = Some(w);
            self.winner = Some(w);
        }
        let at_showdown = self.phase == GamePhase::Showdown;
        Ok(StepOk { winner, showdown: at_showdown })
    }

    /// The snapshot broadcast to clients: pot, board, turn, phase, the given
    /// winner, and each seat's public face. Hole cards appear only for the
    /// viewer's own seat or once the hand has reached showdown, and only
    /// when the seat actually holds two cards.
    pub fn build_state(&self, viewer: Option<usize>, winner: Option<usize>) -> (s: GameStateInfo)
        ensures
            s.pot == self.pot.total,
            s.board@ == self.board@,
            s.current_turn == self.current_turn_index,
            s.phase == self.phase,
            s.winner == winner,
            s.players@.len() == self.players@.len(),
            forall|i: int|
                0 <= i < s.players@.len() ==> {
                    &&& s.players@[i].id == i
                    &&& s.players@[i].name@ == self.players@[i].name@
                    &&& s.players@[i].chips == self.players@[i].chips.chips
                    &&& s.players@[i].is_folded == self.players@[i].is_folded
                    &&& ((s.players@[i].hand matches Some(h)) <==> (self.players@[
                        i
                    ].hand.cards@.len() == 2 && (self.phase == GamePhase::Showdown || (
                    viewer matches Some(v) && v == i))))
                    &&& (s.players@[i].hand matches Some(h) ==> h@[0] == self.players@[
                        i
                    ].hand.cards@[0] && h@[1] == self.players@[i].hand.cards@[1])
                },
    {
        let mut infos: Vec<PlayerPublicInfo> = Vec::new();
        let mut i: usize = 0;
        while i < self.players.len()
            invariant
                i <= self.players@.len(),
                infos@.len() == i,
                forall|j: int|
                    0 <= j < i ==> {
                        &&& infos@[j].id == j
                        &&& infos@[j].name@ == self.players@[j].name@
                        &&& infos@[j].chips == self.players@[j].chips.chips
                        &&& infos@[j].is_folded == self.players@[j].is_folded
                        &&& ((infos@[j].hand matches Some(h)) <==> (self.players@[
                            j
                        ].hand.cards@.len() == 2 && (self.phase == GamePhase::Showdown || (
                        viewer matches Some(v) && v == j))))
                        &&& (infos@[j].hand matches Some(h) ==> h@[0] == self.players@[
                            j
                        ].hand.cards@[0] && h@[1] == self.players@[j].hand.cards@[1])
                    },
            decreases self.players@.len() - i,
        {
            let p = &self.players[i];
            let show_hand = self.phase == GamePhase::Showdown || (match viewer {
                Some(v) => v == i,
                None => false,
            });
            let hand: Option<[Card; 2]> = if p.hand.cards.len() == 2 && show_hand {
                Some([p.hand.cards[0], p.hand.cards[1]])
            } else {
                None
            };
            let info = PlayerPublicInfo {
                id: i,
                name: p.name.clone(),
                chips: p.chips.chips,
                is_folded: p.is_folded,
                hand,
            };
            infos.push(info);
            i = i + 1;
        }
        GameStateInfo {
            pot: self.pot.total,
            players: infos,
            board: clone_cards(&self.board),
            current_turn: self.current_turn_index,
            phase: self.phase,
            winner,
        }
    }
}

/// With two or more live seats among the first `k`, one of them differs
/// from any given seat.
proof fn lemma_alive_upto_two(players: Seq<Player>, k: int, s: int)
    requires
        0 <= k <= players.len(),
        alive_upto(players, k) >= 2,
    ensures
        exists|j: int| 0 <= j < k && !players[j].is_folded && j != s,
    decreases k,
{
    if players[k - 1].is_folded {
        lemma_alive_upto_two(players, k - 1, s);
    } else if k - 1 != s {
        assert(0 <= k - 1 < k && !players[k - 1].is_folded && k - 1 != s);
    } else {
        lemma_alive_upto_witness(players, k - 1);
        let i = choose|i: int| 0 <= i < k - 1 && !players[i].is_folded;
        assert(0 <= i < k && !players[i].is_folded && i != s);
    }
}

/// The count of live seats only reads the folded flags.
proof fn lemma_alive_folded_congruence(a: Seq<Player>, b: Seq<Player>)
    requires
        a.len() == b.len(),
        forall|i: int| 0 <= i < a.len() ==> a[i].is_folded == b[i].is_folded,
    ensures
        alive_count(a) == alive_count(b),
{
    lemma_alive_upto_congruence(a, b, a.len() as int);
}

proof fn lemma_alive_upto_congruence(a: Seq<Player>, b: Seq<Player>, k: int)
    requires
        a.len() == b.len(),
        forall|i: int| 0 <= i < a.len() ==> a[i].is_folded == b[i].is_folded,
        k <= a.len(),
    ensures
        alive_upto(a, k) == alive_upto(b, k),
    decreases k,
{
    if k > 0 {
        lemma_alive_upto_congruence(a, b, k - 1);
    }
}

/// A counted live seat can be pointed at.
proof fn lemma_alive_witness(players: Seq<Player>)
    requires
        alive_count(players) >= 1,
    ensures
        exists|i: int| 0 <= i < players.len() && !players[i].is_folded,
{
    lemma_alive_upto_witness(players, players.len() as int);
}

/// Within any prefix holding a live seat, some seat of it is live.
proof fn lemma_alive_upto_witness(players: Seq<Player>, k: int)
    requires
        0 <= k <= players.len(),
        alive_upto(players, k) >= 1,
    ensures
        exists|i: int| 0 <= i < k && !players[i].is_folded,
    decreases k,
{
    if k > 0 {
        if players[k - 1].is_folded {
            lemma_alive_upto_witness(players, k - 1);
        }
    }
}

/// Copies the board for a snapshot.
fn clone_cards(cards: &Vec<Card>) -> (r: Vec<Card>)
    ensures
        r@ == cards@,
{
    let mut r: Vec<Card> = Vec::new();
    let mut i: usize = 0;
    while i < cards.len()
        invariant
            i <= cards@.len(),
            r@ == cards@.take(i as int),
        decreases cards@.len() - i,
    {
        r.push(cards[i]);
        proof {
            assert(r@ =~= cards@.take(i + 1));
        }
        i = i + 1;
    }
    proof {
        assert(r@ =~= cards@);
    }
    r
}

} // verus!
