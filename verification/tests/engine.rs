use poker::structs::card::{Card, Rank, Suit};
use poker::structs::enums::{ActionError, GamePhase};
use poker::structs::playerchips::PlayerChips;
use poker::structs::pot::Pot;
use poker::Game;

fn card(rank: Rank, suit: Suit) -> Card {
    Card { suit, rank }
}

#[test]
fn chips_deduct_and_add() {
    let mut chips = PlayerChips::new(100);
    assert!(chips.deduct(40));
    assert_eq!(chips.chips, 60);
    assert!(!chips.deduct(61));
    assert_eq!(chips.chips, 60);
    chips.add(15);
    assert_eq!(chips.chips, 75);
}

#[test]
fn pot_books_contributions() {
    let mut pot = Pot::new(3);
    assert_eq!(pot.total, 0);
    pot.add_constribution(0, 50);
    pot.add_constribution(1, 80);
    pot.add_constribution(0, 30);
    assert_eq!(pot.total, 160);
    assert_eq!(pot.get_player_contribution(0), 80);
    assert_eq!(pot.get_player_contribution(1), 80);
    assert_eq!(pot.get_player_contribution(2), 0);
    assert_eq!(pot.get_player_contribution(9), 0);
    assert_eq!(pot.current_bet, 80);
    // The standing bet is the largest round bet.
    assert_eq!(pot.player_bets.iter().max().copied(), Some(pot.current_bet));

    pot.reset_round();
    assert_eq!(pot.total, 160);
    assert_eq!(pot.current_bet, 0);
    assert!(pot.player_bets.iter().all(|&b| b == 0));
    assert_eq!(pot.get_player_contribution(0), 80);

    pot.reset();
    assert_eq!(pot.total, 0);
    assert_eq!(pot.get_player_contribution(0), 0);
}

#[test]
fn pot_ignores_seats_outside_the_ledger() {
    let mut pot = Pot::new(2);
    pot.add_constribution(7, 25);
    assert_eq!(pot.total, 0);
    assert_eq!(pot.current_bet, 0);
}

#[test]
fn bet_moves_chips_and_reopens_action() {
    let mut g = Game::new(2, 1000);
    g.start_game();
    let r = g.bet(0, 100);
    assert!(r.is_ok());
    assert_eq!(g.players[0].chips.chips, 900);
    assert_eq!(g.pot.total, 100);
    assert_eq!(g.pot.current_bet, 100);
    assert!(g.player_has_acted[0]);
    assert!(!g.player_has_acted[1]);
}

#[test]
fn bet_errors_leave_the_table_alone() {
    let mut g = Game::new(2, 30);
    g.start_game();
    assert_eq!(g.bet(0, 50).unwrap_err(), ActionError::InsufficientChips);
    assert_eq!(g.players[0].chips.chips, 30);
    assert_eq!(g.pot.total, 0);
    assert_eq!(g.bet(9, 10).unwrap_err(), ActionError::InvalidSeat);

    let mut g2 = Game::new(2, 1000);
    g2.start_game();
    g2.bet(0, 100).unwrap();
    assert_eq!(g2.bet(1, 40).unwrap_err(), ActionError::BetTooLow);
    assert_eq!(g2.players[1].chips.chips, 1000);
    assert_eq!(g2.pot.total, 100);
}

#[test]
fn call_matches_the_standing_bet() {
    let mut g = Game::new(2, 1000);
    g.start_game();
    g.bet(0, 100).unwrap();
    g.call(1).unwrap();
    assert_eq!(g.players[1].chips.chips, 900);
    assert_eq!(g.pot.total, 200);
    assert_eq!(g.pot.player_bets[1], 100);
    // Calling again owes nothing.
    g.call(1).unwrap();
    assert_eq!(g.players[1].chips.chips, 900);
    assert_eq!(g.pot.total, 200);
}

#[test]
fn call_without_chips_fails() {
    let mut g = Game::new(2, 1000);
    g.start_game();
    g.players[1].chips.chips = 50;
    g.bet(0, 100).unwrap();
    assert_eq!(g.call(1).unwrap_err(), ActionError::InsufficientChips);
    assert_eq!(g.players[1].chips.chips, 50);
    assert_eq!(g.pot.total, 100);
}

#[test]
fn check_is_legal_only_with_a_matched_bet() {
    let mut g = Game::new(2, 1000);
    g.start_game();
    assert!(g.check(0).is_ok());
    g.bet(0, 100).unwrap();
    assert_eq!(g.check(1).unwrap_err(), ActionError::MustActOnBet);
    assert!(g.check(0).is_ok());
    assert_eq!(g.check(5).unwrap_err(), ActionError::InvalidSeat);
}

#[test]
fn fold_marks_the_seat() {
    let mut g = Game::new(2, 1000);
    g.start_game();
    g.fold(0);
    assert!(g.players[0].is_folded);
    assert!(!g.players[1].is_folded);
    assert_eq!(g.players[0].chips.chips, 1000);
}

#[test]
fn all_in_commits_the_whole_stack() {
    let mut g = Game::new(2, 1000);
    g.start_game();
    g.all_in(0).unwrap();
    assert_eq!(g.players[0].chips.chips, 0);
    assert!(g.players[0].is_all_in);
    assert_eq!(g.pot.total, 1000);
    assert_eq!(g.pot.current_bet, 1000);
    assert_eq!(g.pot.player_bets[0], 1000);
    assert_eq!(g.all_in(0).unwrap_err(), ActionError::InsufficientChips);
}

#[test]
fn acted_flags_gate_the_round() {
    let mut g = Game::new(3, 1000);
    g.start_game();
    assert!(!g.all_acted());
    g.mark_acted(0);
    g.mark_acted(1);
    assert!(!g.all_acted());
    g.fold(2);
    assert!(g.all_acted());
    assert!(g.non_folded_players_match_bet());
    g.bet(0, 50).unwrap();
    assert!(!g.all_acted());
    assert!(!g.non_folded_players_match_bet());
}

#[test]
fn best_hand_picks_the_highest_rank() {
    let mut g = Game::new(2, 1000);
    g.players[0].hand.cards =
        vec![card(Rank::Ace, Suit::Hearts), card(Rank::Ace, Suit::Spades)];
    g.players[1].hand.cards =
        vec![card(Rank::Two, Suit::Clubs), card(Rank::Seven, Suit::Diamonds)];
    g.board = vec![
        card(Rank::Ace, Suit::Clubs),
        card(Rank::Ace, Suit::Diamonds),
        card(Rank::King, Suit::Spades),
        card(Rank::Queen, Suit::Hearts),
        card(Rank::Nine, Suit::Clubs),
    ];
    assert_eq!(g.best_hand(), 0);
    let (rank, words) = g.players[0].hand.evaluate(&g.board, &g.eval);
    assert!(rank >= 7296);
    assert_eq!(words, "Four of a Kind");
}

#[test]
fn award_pot_to_winner_pays_the_best_hand() {
    let mut g = Game::new(2, 1000);
    g.players[0].hand.cards =
        vec![card(Rank::Ace, Suit::Hearts), card(Rank::Ace, Suit::Spades)];
    g.players[1].hand.cards =
        vec![card(Rank::Two, Suit::Clubs), card(Rank::Seven, Suit::Diamonds)];
    g.board = vec![
        card(Rank::Ace, Suit::Clubs),
        card(Rank::Ace, Suit::Diamonds),
        card(Rank::King, Suit::Spades),
        card(Rank::Queen, Suit::Hearts),
        card(Rank::Nine, Suit::Clubs),
    ];
    g.pot.add_constribution(0, 200);
    g.pot.add_constribution(1, 200);
    g.players[0].chips.chips = 800;
    g.players[1].chips.chips = 800;
    g.award_pot_to_winner();
    assert_eq!(g.players[0].chips.chips, 1200);
    assert_eq!(g.players[1].chips.chips, 800);
    assert_eq!(g.pot.total, 0);
    assert_eq!(g.pot.get_player_contribution(0), 0);
}

#[test]
fn award_to_specific_player_empties_the_pot() {
    let mut g = Game::new(2, 1000);
    g.pot.add_constribution(0, 150);
    g.players[0].chips.chips = 850;
    g.award_pot_to_specific_player(1);
    assert_eq!(g.players[1].chips.chips, 1150);
    assert_eq!(g.pot.total, 0);
}

#[test]
fn start_game_deals_and_resets() {
    let mut g = Game::new(3, 500);
    g.start_game();
    assert_eq!(g.phase, GamePhase::Preflop);
    assert_eq!(g.winner, None);
    assert_eq!(g.current_turn_index, 0);
    assert_eq!(g.board.len(), 0);
    assert_eq!(g.pot.total, 0);
    assert_eq!(g.deck.cards.len(), 52 - 6);
    for p in &g.players {
        assert_eq!(p.hand.cards.len(), 2);
        assert!(!p.is_folded);
        assert_eq!(p.chips.chips, 500);
    }
    assert!(g.player_has_acted.iter().all(|&a| !a));
}

#[test]
fn advance_deals_the_board_in_threes_then_ones() {
    let mut g = Game::new(2, 1000);
    g.start_game();
    assert_eq!(g.board.len(), 0);
    g.advance_phase();
    assert_eq!(g.phase, GamePhase::Flop);
    assert_eq!(g.board.len(), 3);
    g.advance_phase();
    assert_eq!(g.phase, GamePhase::Turn);
    assert_eq!(g.board.len(), 4);
    g.advance_phase();
    assert_eq!(g.phase, GamePhase::River);
    assert_eq!(g.board.len(), 5);
    g.advance_phase();
    assert_eq!(g.phase, GamePhase::Showdown);
    assert_eq!(g.board.len(), 5);
}

#[test]
fn advance_resets_round_bets_but_keeps_the_pot() {
    let mut g = Game::new(2, 1000);
    g.start_game();
    g.bet(0, 100).unwrap();
    g.call(1).unwrap();
    g.advance_phase();
    assert_eq!(g.pot.total, 200);
    assert_eq!(g.pot.current_bet, 0);
    assert!(g.pot.player_bets.iter().all(|&b| b == 0));
    assert!(g.player_has_acted.iter().all(|&a| !a));
}

#[test]
fn showdown_advance_awards_and_redeals() {
    let mut g = Game::new(2, 1000);
    g.start_game();
    g.bet(0, 100).unwrap();
    g.call(1).unwrap();
    g.advance_phase();
    g.advance_phase();
    g.advance_phase();
    g.advance_phase();
    assert_eq!(g.phase, GamePhase::Showdown);
    g.advance_phase();
    assert_eq!(g.phase, GamePhase::Preflop);
    assert_eq!(g.pot.total, 0);
    assert_eq!(g.board.len(), 0);
    let total: u32 = g.players.iter().map(|p| p.chips.chips).sum();
    assert_eq!(total, 2000);
    // One seat won back the 200 in the pot.
    assert!(g.players.iter().any(|p| p.chips.chips == 1100));
    for p in &g.players {
        assert_eq!(p.hand.cards.len(), 2);
        assert!(!p.is_folded);
    }
}

#[test]
fn reset_game_restores_stacks() {
    let mut g = Game::new(2, 1000);
    g.start_game();
    g.bet(0, 400).unwrap();
    g.fold(1);
    g.reset_game();
    assert_eq!(g.players[0].chips.chips, 1000);
    assert_eq!(g.players[1].chips.chips, 1000);
    assert!(!g.players[1].is_folded);
    assert_eq!(g.pot.total, 0);
}

#[test]
fn reset_round_clears_bets_only() {
    let mut g = Game::new(2, 1000);
    g.start_game();
    g.bet(0, 100).unwrap();
    g.reset_round();
    assert_eq!(g.pot.total, 100);
    assert_eq!(g.pot.current_bet, 0);
    assert_eq!(g.pot.player_bets[0], 0);
    g.reset_pot();
    assert_eq!(g.pot.total, 100);
}

#[test]
fn add_seat_widens_the_table() {
    let mut g = Game::new(0, 1000);
    let s0 = g.add_seat(1000);
    let s1 = g.add_seat(1000);
    assert_eq!(s0, 0);
    assert_eq!(s1, 1);
    assert_eq!(g.players.len(), 2);
    assert_eq!(g.pot.contributions.len(), 2);
    assert_eq!(g.player_has_acted.len(), 2);
    assert_eq!(g.players[1].chips.chips, 1000);
}

#[test]
fn error_messages_name_the_fault() {
    assert_eq!(
        ActionError::InsufficientChips.message(),
        "Player doesn't have enough chips"
    );
    assert_eq!(
        ActionError::BetTooLow.message(),
        "Bet must be at least the current bet (or use call)"
    );
    assert_eq!(
        ActionError::MustActOnBet.message(),
        "Cannot check: need to call, raise or fold"
    );
    assert_eq!(ActionError::OutOfTurn.message(), "Not this seat's turn");
    assert_eq!(ActionError::InvalidSeat.message(), "No such seat at the table");
    assert_eq!(ActionError::InsufficientCards.message(), "Not enough cards in deck");
}
