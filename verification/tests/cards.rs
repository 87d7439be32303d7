use poker::structs::card::{Card, Rank, Suit};
use poker::structs::deck::Deck;
use poker::structs::enums::ActionError;
use poker::structs::misc::rank_to_words;

fn card(rank: Rank, suit: Suit) -> Card {
    Card { suit, rank }
}

#[test]
fn card_indices_are_dense() {
    assert_eq!(card(Rank::Two, Suit::Clubs).as_index(), 0);
    assert_eq!(card(Rank::Two, Suit::Diamonds).as_index(), 1);
    assert_eq!(card(Rank::Three, Suit::Clubs).as_index(), 4);
    assert_eq!(card(Rank::Nine, Suit::Spades).as_index(), 31);
    assert_eq!(card(Rank::Ace, Suit::Spades).as_index(), 51);
}

#[test]
fn all_card_indices_distinct() {
    let deck = Deck::new();
    let mut seen = [false; 52];
    for c in &deck.cards {
        let i = c.as_index();
        assert!(i < 52);
        assert!(!seen[i]);
        seen[i] = true;
    }
    assert!(seen.iter().all(|&s| s));
}

#[test]
fn rank_chars() {
    assert_eq!(Rank::Ace.to_char(), 'A');
    assert_eq!(Rank::Ten.to_char(), 'T');
    assert_eq!(Rank::Two.to_char(), '2');
    assert_eq!(Rank::King.to_char(), 'K');
}

#[test]
fn rank_words_bands() {
    assert_eq!(rank_to_words(0), "High Card");
    assert_eq!(rank_to_words(1276), "High Card");
    assert_eq!(rank_to_words(1277), "One Pair");
    assert_eq!(rank_to_words(4137), "Two Pair");
    assert_eq!(rank_to_words(4995), "Three of a Kind");
    assert_eq!(rank_to_words(5853), "Straight");
    assert_eq!(rank_to_words(5863), "Flush");
    assert_eq!(rank_to_words(7140), "Full House");
    assert_eq!(rank_to_words(7296), "Four of a Kind");
    assert_eq!(rank_to_words(7452), "Straight Flush");
    assert_eq!(rank_to_words(7461), "Straight Flush");
    assert_eq!(rank_to_words(7462), "Unknown Hand");
}

#[test]
fn fresh_deck_is_ordered() {
    let deck = Deck::new();
    assert_eq!(deck.cards.len(), 52);
    assert_eq!(deck.cards[0], card(Rank::Ace, Suit::Spades));
    assert_eq!(deck.cards[1], card(Rank::Two, Suit::Spades));
    assert_eq!(deck.cards[12], card(Rank::King, Suit::Spades));
    assert_eq!(deck.cards[13], card(Rank::Ace, Suit::Clubs));
    assert_eq!(deck.cards[51], card(Rank::King, Suit::Diamonds));
}

#[test]
fn draw_takes_from_the_top() {
    let mut deck = Deck::new();
    let drawn = deck.draw(2).unwrap();
    assert_eq!(deck.cards.len(), 50);
    assert_eq!(drawn.len(), 2);
    // The last card of a fresh deck is the King of Diamonds, then the Queen.
    assert_eq!(drawn[0], card(Rank::King, Suit::Diamonds));
    assert_eq!(drawn[1], card(Rank::Queen, Suit::Diamonds));
}

#[test]
fn draw_refuses_when_short() {
    let mut deck = Deck::new();
    let _ = deck.draw(50).unwrap();
    let r = deck.draw(3);
    assert_eq!(r.unwrap_err(), ActionError::InsufficientCards);
    assert_eq!(deck.cards.len(), 2);
}

#[test]
fn reset_rebuilds_the_deck() {
    let mut deck = Deck::new();
    let _ = deck.draw(20).unwrap();
    deck.reset();
    assert_eq!(deck.cards.len(), 52);
    assert_eq!(deck.cards[0], card(Rank::Ace, Suit::Spades));
}

#[test]
fn shuffle_keeps_the_same_cards() {
    let mut deck = Deck::new();
    deck.shuffle();
    assert_eq!(deck.cards.len(), 52);
    let mut indices: Vec<usize> = deck.cards.iter().map(|c| c.as_index()).collect();
    indices.sort();
    let expected: Vec<usize> = (0..52).collect();
    assert_eq!(indices, expected);
}
