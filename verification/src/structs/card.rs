use vstd::prelude::*;

verus! {

/// One of the four French suits.
#[derive(Clone, Copy, Debug, PartialEq, Eq, Structural)]
pub enum Suit {
    Spades,
    Clubs,
    Hearts,
    Diamonds,
}

/// A card face, from deuce up to ace.
#[derive(Clone, Copy, Debug, PartialEq, Eq, Structural)]
pub enum Rank {
    Ace,
    Two,
    Three,
    Four,
    Five,
    Six,
    Seven,
    Eight,
    Nine,
    Ten,
    Jack,
    Queen,
    King,
}

impl Rank {
    /// The character conventionally used for this rank.
    pub open spec fn char_spec(self) -> char {
        match self {
            Rank::Ace => 'A',
            Rank::Two => '2',
            Rank::Three => '3',
            Rank::Four => '4',
            Rank::Five => '5',
            Rank::Six => '6',
            Rank::Seven => '7',
            Rank::Eight => '8',
            Rank::Nine => '9',
            Rank::Ten => 'T',
            Rank::Jack => 'J',
            Rank::Queen => 'Q',
            Rank::King => 'K',
        }
    }

    pub fn to_char(&self) -> (c: char)
        ensures
            c == self.char_spec(),
    {
        match self {
            Rank::Ace => 'A',
            Rank::Two => '2',
            Rank::Three => '3',
            Rank::Four => '4',
            Rank::Five => '5',
            Rank::Six => '6',
            Rank::Seven => '7',
            Rank::Eight => '8',
            Rank::Nine => '9',
            Rank::Ten => 'T',
            Rank::Jack => 'J',
            Rank::Queen => 'Q',
            Rank::King => 'K',
        }
    }
}

/// Position of a suit in the dense card numbering used by the rank oracle.
pub open spec fn suit_num(s: Suit) -> int {
    match s {
        Suit::Clubs => 0,
        Suit::Diamonds => 1,
        Suit::Hearts => 2,
        Suit::Spades => 3,
    }
}

/// Position of a rank in the dense card numbering used by the rank oracle.
pub open spec fn rank_num(r: Rank) -> int {
    match r {
        Rank::Two => 0,
        Rank::Three => 1,
        Rank::Four => 2,
        Rank::Five => 3,
        Rank::Six => 4,
        Rank::Seven => 5,
        Rank::Eight => 6,
        Rank::Nine => 7,
        Rank::Ten => 8,
        Rank::Jack => 9,
        Rank::Queen => 10,
        Rank::King => 11,
        Rank::Ace => 12,
    }
}

/// An immutable playing card: suit and rank.
#[derive(Clone, Copy, Debug, PartialEq, Eq, Structural)]
pub struct Card {
    pub suit: Suit,
    pub rank: Rank,
}

impl Card {
    /// The dense 0..52 number of this card: four cards per rank, deuces first.
    pub open spec fn index_spec(self) -> int {
        4 * rank_num(self.rank) + suit_num(self.suit)
    }

    /// Maps this card to its dense 0..52 number, as the rank oracle expects it.
    pub fn as_index(self) -> (i: usize)
        ensures
            i == self.index_spec(),
            i < 52,
    {
        let suit_offset: usize = match self.suit {
            Suit::Clubs => 0,
            Suit::Diamonds => 1,
            Suit::Hearts => 2,
            Suit::Spades => 3,
        };

        let rank_offset: usize = match self.rank {
            Rank::Two => 0,
            Rank::Three => 4,
            Rank::Four => 8,
            Rank::Five => 12,
            Rank::Six => 16,
            Rank::Seven => 20,
            Rank::Eight => 24,
            Rank::Nine => 28,
            Rank::Ten => 32,
            Rank::Jack => 36,
            Rank::Queen => 40,
            Rank::King => 44,
            Rank::Ace => 48,
        };

        suit_offset + rank_offset
    }
}

/// Two distinct cards never share a dense number.
pub proof fn lemma_card_index_injective(a: Card, b: Card)
    requires
        a.index_spec() == b.index_spec(),
    ensures
        a == b,
{
    assert(suit_num(a.suit) == suit_num(b.suit) && rank_num(a.rank) == rank_num(b.rank));
}

} // verus!
