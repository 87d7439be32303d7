use poker::structs::enums::{ActionError, ClientMessage, GamePhase};
use poker::Game;

#[test]
fn scenario_open_bet_and_call_close_the_round() {
    let mut g = Game::new(2, 1000);
    g.start_game();

    let s = g.handle_message(0, ClientMessage::Bet(100)).unwrap();
    assert_eq!(g.players[0].chips.chips, 900);
    assert_eq!(g.pot.total, 100);
    assert_eq!(g.pot.current_bet, 100);
    assert!(!g.player_has_acted[1]);
    assert!(!s.showdown);
    assert_eq!(g.phase, GamePhase::Preflop);

    let s = g.handle_message(1, ClientMessage::Call).unwrap();
    assert_eq!(g.players[1].chips.chips, 900);
    assert_eq!(g.pot.total, 200);
    assert_eq!(g.phase, GamePhase::Flop);
    assert_eq!(g.board.len(), 3);
    assert!(g.pot.player_bets.iter().all(|&b| b == 0));
    assert!(!s.showdown);
}

#[test]
fn scenario_check_against_a_standing_bet_is_refused() {
    let mut g = Game::new(2, 1000);
    g.start_game();
    g.handle_message(0, ClientMessage::Bet(100)).unwrap();

    let before_chips = g.players[1].chips.chips;
    let before_pot = g.pot.total;
    let e = g.handle_message(1, ClientMessage::Check).unwrap_err();
    assert_eq!(e, ActionError::MustActOnBet);
    assert_eq!(g.players[1].chips.chips, before_chips);
    assert_eq!(g.pot.total, before_pot);
    assert_eq!(g.phase, GamePhase::Preflop);
}

#[test]
fn scenario_fold_hands_the_pot_to_the_survivor() {
    let mut g = Game::new(2, 1000);
    g.start_game();
    g.handle_message(0, ClientMessage::Bet(100)).unwrap();
    g.handle_message(1, ClientMessage::Call).unwrap();
    assert_eq!(g.phase, GamePhase::Flop);

    let s = g.handle_message(0, ClientMessage::Fold).unwrap();
    assert_eq!(g.phase, GamePhase::Showdown);
    assert_eq!(s.winner, Some(1));
    assert!(s.showdown);
    assert_eq!(g.winner, Some(1));
    assert_eq!(g.players[0].chips.chips, 900);
    assert_eq!(g.players[1].chips.chips, 1100);
    assert_eq!(g.pot.total, 0);
}

#[test]
fn scenario_bet_over_the_stack_changes_nothing() {
    let mut g = Game::new(2, 30);
    g.start_game();
    let e = g.handle_message(0, ClientMessage::Bet(50)).unwrap_err();
    assert_eq!(e, ActionError::InsufficientChips);
    assert_eq!(g.players[0].chips.chips, 30);
    assert_eq!(g.pot.total, 0);
    assert_eq!(g.pot.current_bet, 0);
    assert_eq!(g.phase, GamePhase::Preflop);
}

#[test]
fn scenario_a_checked_down_hand_reaches_showdown_on_seven_cards() {
    let mut g = Game::new(2, 1000);
    g.start_game();

    // Preflop, flop, turn and river are all checked through; the board
    // grows by three cards, then one, then one.
    g.handle_message(0, ClientMessage::Check).unwrap();
    let s = g.handle_message(1, ClientMessage::Check).unwrap();
    assert_eq!(g.phase, GamePhase::Flop);
    assert_eq!(g.board.len(), 3);
    assert!(!s.showdown);

    g.handle_message(0, ClientMessage::Check).unwrap();
    g.handle_message(1, ClientMessage::Check).unwrap();
    assert_eq!(g.phase, GamePhase::Turn);
    assert_eq!(g.board.len(), 4);

    g.handle_message(0, ClientMessage::Check).unwrap();
    g.handle_message(1, ClientMessage::Check).unwrap();
    assert_eq!(g.phase, GamePhase::River);
    assert_eq!(g.board.len(), 5);

    g.handle_message(0, ClientMessage::Check).unwrap();
    let s = g.handle_message(1, ClientMessage::Check).unwrap();
    assert_eq!(g.phase, GamePhase::Showdown);
    assert_eq!(g.board.len(), 5);
    assert!(s.showdown);
    // Each remaining seat shows two hole cards beside the five on the board.
    for p in &g.players {
        assert_eq!(p.hand.cards.len(), 2);
    }
    let w = s.winner.expect("showdown names a winner");
    assert!(w < 2);
    assert_eq!(g.winner, Some(w));

    // The deferred restart resolves the showdown and opens the next hand.
    assert!(g.restart_hand());
    assert_eq!(g.phase, GamePhase::Preflop);
    assert_eq!(g.pot.total, 0);
    let total: u32 = g.players.iter().map(|p| p.chips.chips).sum();
    assert_eq!(total, 2000);
}

#[test]
fn join_renames_and_starts_with_two_seats() {
    let mut g = Game::new(0, 1000);
    g.add_seat(1000);
    assert_eq!(g.phase, GamePhase::Waiting);
    g.handle_message(0, ClientMessage::Join(String::from("alice"))).unwrap();
    // One seat is not enough to start.
    assert_eq!(g.phase, GamePhase::Waiting);

    g.add_seat(1000);
    g.handle_message(1, ClientMessage::Join(String::from("bob"))).unwrap();
    assert_eq!(g.phase, GamePhase::Preflop);
    assert_eq!(g.players[0].name, "alice");
    assert_eq!(g.players[1].name, "bob");
    for p in &g.players {
        assert_eq!(p.hand.cards.len(), 2);
    }
}

#[test]
fn acting_out_of_turn_is_refused() {
    let mut g = Game::new(2, 1000);
    g.start_game();
    let e = g.handle_message(1, ClientMessage::Bet(10)).unwrap_err();
    assert_eq!(e, ActionError::OutOfTurn);
    assert_eq!(g.pot.total, 0);
    let e = g.handle_message(5, ClientMessage::Check).unwrap_err();
    assert_eq!(e, ActionError::InvalidSeat);
}

#[test]
fn restart_leaves_a_running_table_alone() {
    let mut g = Game::new(2, 1000);
    g.start_game();
    assert!(!g.restart_hand());
    assert_eq!(g.phase, GamePhase::Preflop);
    assert_eq!(g.players[0].hand.cards.len(), 2);
}

#[test]
fn snapshots_hide_other_seats_hole_cards() {
    let mut g = Game::new(2, 1000);
    g.start_game();
    g.handle_message(0, ClientMessage::Bet(25)).unwrap();

    let s = g.build_state(Some(0), None);
    assert_eq!(s.pot, 25);
    assert_eq!(s.phase, GamePhase::Preflop);
    assert_eq!(s.current_turn, 1);
    assert_eq!(s.winner, None);
    assert_eq!(s.players.len(), 2);
    assert_eq!(s.players[0].chips, 975);
    assert!(s.players[0].hand.is_some());
    assert!(s.players[1].hand.is_none());
    assert_eq!(s.board.len(), 0);

    let blind = g.build_state(None, None);
    assert!(blind.players[0].hand.is_none());
    assert!(blind.players[1].hand.is_none());
}

#[test]
fn snapshots_show_every_hand_at_showdown() {
    let mut g = Game::new(2, 1000);
    g.start_game();
    g.handle_message(0, ClientMessage::Fold).unwrap();
    assert_eq!(g.phase, GamePhase::Showdown);
    let s = g.build_state(None, g.winner);
    assert!(s.players[0].hand.is_some());
    assert!(s.players[1].hand.is_some());
    assert_eq!(s.winner, Some(1));
    assert!(s.players[0].is_folded);
}

#[test]
fn chips_are_conserved_across_a_betting_war() {
    let mut g = Game::new(3, 1000);
    g.start_game();
    g.handle_message(0, ClientMessage::Bet(50)).unwrap();
    g.handle_message(1, ClientMessage::Bet(150)).unwrap();
    g.handle_message(2, ClientMessage::Fold).unwrap();
    g.handle_message(0, ClientMessage::Call).unwrap();
    let stacks: u32 = g.players.iter().map(|p| p.chips.chips).sum();
    assert_eq!(stacks + g.pot.total, 3000);
    assert_eq!(g.pot.total, 300);
}
