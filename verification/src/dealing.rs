use vstd::prelude::*;

use crate::structs::card::Card;
use crate::structs::player::Player;

verus! {

/// Every hole card the seats hold, in seat order.
pub open spec fn dealt_cards(players: Seq<Player>) -> Seq<Card>
    decreases players.len(),
{
    if players.len() == 0 {
        Seq::empty()
    } else {
        players[0].hand.cards@ + dealt_cards(players.drop_first())
    }
}

/// Seating one more player appends that player's cards.
pub proof fn lemma_dealt_push(players: Seq<Player>, p: Player)
    ensures
        dealt_cards(players.push(p)) == dealt_cards(players) + p.hand.cards@,
    decreases players.len(),
{
    if players.len() == 0 {
        assert(players.push(p).drop_first() =~= Seq::<Player>::empty());
        assert(dealt_cards(Seq::<Player>::empty()) =~= Seq::<Card>::empty());
        assert(players.push(p)[0] == p);
        assert(dealt_cards(players.push(p)) =~= dealt_cards(players) + p.hand.cards@);
    } else {
        assert(players.push(p).drop_first() =~= players.drop_first().push(p));
        lemma_dealt_push(players.drop_first(), p);
        assert(dealt_cards(players.push(p)) =~= dealt_cards(players) + p.hand.cards@);
    }
}

/// The dealt cards split around any one seat.
pub proof fn lemma_dealt_split(players: Seq<Player>, i: int)
    requires
        0 <= i < players.len(),
    ensures
        dealt_cards(players) == dealt_cards(players.take(i)) + players[i].hand.cards@
            + dealt_cards(players.skip(i + 1)),
    decreases i,
{
    if i == 0 {
        assert(players.take(0) =~= Seq::<Player>::empty());
        assert(players.skip(1) =~= players.drop_first());
        assert(dealt_cards(players) =~= dealt_cards(players.take(0)) + players[0].hand.cards@
            + dealt_cards(players.skip(1)));
    } else {
        lemma_dealt_split(players.drop_first(), i - 1);
        assert(players.take(i).drop_first() =~= players.drop_first().take(i - 1));
        assert(players.skip(i + 1) =~= players.drop_first().skip(i));
        assert(players.take(i).len() > 0);
        assert(players.take(i)[0] == players[0]);
        assert(players.drop_first()[i - 1] == players[i]);
        assert(dealt_cards(players) =~= dealt_cards(players.take(i)) + players[i].hand.cards@
            + dealt_cards(players.skip(i + 1)));
    }
}

/// Changing a seat without touching its cards leaves the dealt cards as they were.
pub proof fn lemma_dealt_update_same_hand(players: Seq<Player>, i: int, p: Player)
    requires
        0 <= i < players.len(),
        p.hand.cards@ == players[i].hand.cards@,
    ensures
        dealt_cards(players.update(i, p)) == dealt_cards(players),
{
    lemma_dealt_split(players, i);
    lemma_dealt_split(players.update(i, p), i);
    assert(players.update(i, p).take(i) =~= players.take(i));
    assert(players.update(i, p).skip(i + 1) =~= players.skip(i + 1));
}

/// Handing a seat a new set of cards swaps exactly that piece of the dealt cards.
pub proof fn lemma_dealt_update(players: Seq<Player>, i: int, p: Player)
    requires
        0 <= i < players.len(),
    ensures
        dealt_cards(players.update(i, p)) == dealt_cards(players.take(i)) + p.hand.cards@
            + dealt_cards(players.skip(i + 1)),
{
    lemma_dealt_split(players.update(i, p), i);
    assert(players.update(i, p).take(i) =~= players.take(i));
    assert(players.update(i, p).skip(i + 1) =~= players.skip(i + 1));
}

/// Two runs holding the same cards repeat a card together or not at all.
pub proof fn lemma_no_dup_like(a: Seq<Card>, b: Seq<Card>)
    requires
        a.to_multiset() == b.to_multiset(),
        a.no_duplicates(),
    ensures
        b.no_duplicates(),
{
    a.lemma_multiset_has_no_duplicates();
    b.lemma_multiset_has_no_duplicates_conv();
}

/// Seats with no cards hold no dealt cards.
pub proof fn lemma_dealt_all_empty(players: Seq<Player>)
    requires
        forall|i: int| 0 <= i < players.len() ==> players[i].hand.cards@.len() == 0,
    ensures
        dealt_cards(players) == Seq::<Card>::empty(),
    decreases players.len(),
{
    if players.len() > 0 {
        lemma_dealt_all_empty(players.drop_first());
        assert(dealt_cards(players) =~= Seq::<Card>::empty());
    }
}

/// Dealing `c` cards from the top of the deck into one empty-handed seat
/// moves cards without repeating any: the deck shrinks by exactly the cards
/// the seat receives.
pub proof fn lemma_deal_no_dup(
    deck0: Seq<Card>,
    board: Seq<Card>,
    players0: Seq<Player>,
    k: int,
    p: Player,
    c: int,
)
    requires
        (deck0 + board + dealt_cards(players0)).no_duplicates(),
        0 <= k < players0.len(),
        players0[k].hand.cards@.len() == 0,
        0 <= c <= deck0.len(),
        p.hand.cards@ == deck0.skip(deck0.len() - c).reverse(),
    ensures
        (deck0.take(deck0.len() - c) + board + dealt_cards(players0.update(k, p))).no_duplicates(),
{
    broadcast use vstd::multiset::group_multiset_axioms;

    let n = deck0.len() as int;
    let deck1 = deck0.take(n - c);
    let drawn = p.hand.cards@;
    let front = dealt_cards(players0.take(k));
    let back = dealt_cards(players0.skip(k + 1));
    lemma_dealt_split(players0, k);
    assert(dealt_cards(players0) =~= front + back);
    lemma_dealt_update(players0, k, p);

    let all0 = deck0 + board + dealt_cards(players0);
    let all1 = deck1 + board + dealt_cards(players0.update(k, p));

    assert(deck0 =~= deck1 + deck0.skip(n - c));
    vstd::seq_lib::lemma_multiset_commutative(deck1, deck0.skip(n - c));
    deck0.skip(n - c).lemma_reverse_to_multiset();

    vstd::seq_lib::lemma_multiset_commutative(deck0 + board, dealt_cards(players0));
    vstd::seq_lib::lemma_multiset_commutative(deck0, board);
    vstd::seq_lib::lemma_multiset_commutative(deck1 + board, dealt_cards(players0.update(k, p)));
    vstd::seq_lib::lemma_multiset_commutative(deck1, board);
    vstd::seq_lib::lemma_multiset_commutative(front, back);
    vstd::seq_lib::lemma_multiset_commutative(front + drawn, back);
    vstd::seq_lib::lemma_multiset_commutative(front, drawn);

    assert(all0.to_multiset() =~= all1.to_multiset());
    lemma_no_dup_like(all0, all1);
}

/// Dealing community cards moves the top of the deck onto the board without
/// repeating any card in play.
pub proof fn lemma_board_extend_no_dup(
    deck0: Seq<Card>,
    board0: Seq<Card>,
    players: Seq<Player>,
    c: int,
)
    requires
        (deck0 + board0 + dealt_cards(players)).no_duplicates(),
        0 <= c <= deck0.len(),
    ensures
        (deck0.take(deck0.len() - c) + (board0 + deck0.skip(deck0.len() - c).reverse())
            + dealt_cards(players)).no_duplicates(),
{
    broadcast use vstd::multiset::group_multiset_axioms;

    let n = deck0.len() as int;
    let deck1 = deck0.take(n - c);
    let drawn = deck0.skip(n - c).reverse();
    let board1 = board0 + drawn;
    let dealt = dealt_cards(players);

    assert(deck0 =~= deck1 + deck0.skip(n - c));
    vstd::seq_lib::lemma_multiset_commutative(deck1, deck0.skip(n - c));
    deck0.skip(n - c).lemma_reverse_to_multiset();

    vstd::seq_lib::lemma_multiset_commutative(deck0 + board0, dealt);
    vstd::seq_lib::lemma_multiset_commutative(deck0, board0);
    vstd::seq_lib::lemma_multiset_commutative(deck1 + board1, dealt);
    vstd::seq_lib::lemma_multiset_commutative(deck1, board1);
    vstd::seq_lib::lemma_multiset_commutative(board0, drawn);

    assert((deck0 + board0 + dealt).to_multiset() =~= (deck1 + board1 + dealt).to_multiset());
    lemma_no_dup_like(deck0 + board0 + dealt, deck1 + board1 + dealt);
}

/// When deck, board and dealt hands never repeat a card, neither does one
/// seat's hand joined with the board.
pub proof fn lemma_hand_board_no_dup(
    deck_cards: Seq<Card>,
    board: Seq<Card>,
    players: Seq<Player>,
    i: int,
)
    requires
        (deck_cards + board + dealt_cards(players)).no_duplicates(),
        0 <= i < players.len(),
    ensures
        (players[i].hand.cards@ + board).no_duplicates(),
{
    broadcast use vstd::multiset::group_multiset_axioms;

    let all = deck_cards + board + dealt_cards(players);
    let hand = players[i].hand.cards@;
    all.lemma_multiset_has_no_duplicates();
    lemma_dealt_split(players, i);

    vstd::seq_lib::lemma_multiset_commutative(deck_cards + board, dealt_cards(players));
    vstd::seq_lib::lemma_multiset_commutative(deck_cards, board);
    vstd::seq_lib::lemma_multiset_commutative(
        dealt_cards(players.take(i)) + hand,
        dealt_cards(players.skip(i + 1)),
    );
    vstd::seq_lib::lemma_multiset_commutative(dealt_cards(players.take(i)), hand);
    vstd::seq_lib::lemma_multiset_commutative(hand, board);
    assert(dealt_cards(players) == (dealt_cards(players.take(i)) + hand) + dealt_cards(
        players.skip(i + 1),
    ));

    assert forall|x: Card|
        (hand + board).to_multiset().contains(x) implies (hand + board).to_multiset().count(x)
        == 1 by {
        assert((hand + board).to_multiset().count(x) == hand.to_multiset().count(x)
            + board.to_multiset().count(x));
        assert(all.to_multiset().count(x) >= hand.to_multiset().count(x)
            + board.to_multiset().count(x));
        assert(all.to_multiset().count(x) > 0);
        assert(all.to_multiset().contains(x));
    }
    (hand + board).lemma_multiset_has_no_duplicates_conv();
}

} // verus!
