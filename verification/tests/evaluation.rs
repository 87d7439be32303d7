use poker::eval::Evaluator;
use poker::structs::card::{Card, Rank, Suit};
use poker::structs::hand::Hand;

fn card(rank: Rank, suit: Suit) -> Card {
    Card { suit, rank }
}

#[test]
fn five_card_rank_matches_oracle() {
    // Nine of spades, eight of hearts + ace of hearts, six of clubs, ace of
    // diamonds: a pair of aces.
    let oracle = Evaluator::new();
    let mut hand = Hand::new();
    hand.cards = vec![card(Rank::Nine, Suit::Spades), card(Rank::Eight, Suit::Hearts)];
    let board = vec![
        card(Rank::Ace, Suit::Hearts),
        card(Rank::Six, Suit::Clubs),
        card(Rank::Ace, Suit::Diamonds),
    ];
    let (rank, words) = hand.evaluate(&board, &oracle);
    assert_eq!(rank, 3971);
    assert_eq!(words, "One Pair");
}

#[test]
fn seven_card_rank_matches_oracle() {
    // A pair of threes among seven cards.
    let oracle = Evaluator::new();
    let mut hand = Hand::new();
    hand.cards = vec![card(Rank::Three, Suit::Diamonds), card(Rank::Three, Suit::Clubs)];
    let board = vec![
        card(Rank::Six, Suit::Hearts),
        card(Rank::Nine, Suit::Spades),
        card(Rank::Ten, Suit::Hearts),
        card(Rank::Ace, Suit::Clubs),
        card(Rank::Seven, Suit::Hearts),
    ];
    let (rank, words) = hand.evaluate(&board, &oracle);
    assert_eq!(rank, 1689);
    assert_eq!(words, "One Pair");
}

#[test]
fn six_card_rank_takes_the_best_five() {
    // Five-four of clubs over three-deuce of clubs, an ace of clubs and a
    // stray ace of spades: the wheel straight flush in clubs.
    let oracle = Evaluator::new();
    let mut hand = Hand::new();
    hand.cards = vec![card(Rank::Five, Suit::Clubs), card(Rank::Four, Suit::Clubs)];
    let board = vec![
        card(Rank::Three, Suit::Clubs),
        card(Rank::Two, Suit::Clubs),
        card(Rank::Ace, Suit::Clubs),
        card(Rank::Ace, Suit::Spades),
    ];
    let (rank, words) = hand.evaluate(&board, &oracle);
    assert_eq!(rank, 7452);
    assert_eq!(words, "Straight Flush");
}

#[test]
fn wrong_card_count_reports_zero() {
    let oracle = Evaluator::new();
    let mut hand = Hand::new();
    hand.cards = vec![card(Rank::Five, Suit::Clubs), card(Rank::Four, Suit::Clubs)];
    let board = vec![card(Rank::Three, Suit::Clubs)];
    let (rank, _words) = hand.evaluate(&board, &oracle);
    assert_eq!(rank, 0);
}
