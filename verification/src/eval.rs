use vstd::prelude::*;

use std::sync::Arc;

use crate::structs::card::Card;

verus! {

#[verifier::external_type_specification]
#[verifier::external_body]
pub struct ExTableFive(poker_eval::eval::five::TableFive);

#[verifier::external_type_specification]
#[verifier::external_body]
pub struct ExTableSeven(poker_eval::eval::seven::TableSeven);

/// The rank the oracle assigns to five distinct cards, given by their dense
/// numbers; a higher rank is a better hand.
pub uninterp spec fn rank_five_spec(cards: Seq<int>) -> u32;

/// The rank the oracle assigns to seven distinct cards, given by their dense
/// numbers; a higher rank is a better hand.
pub uninterp spec fn rank_seven_spec(cards: Seq<int>) -> u32;

/// The dense numbers of a run of cards, in order.
pub open spec fn card_indices(cards: Seq<Card>) -> Seq<int> {
    cards.map_values(|c: Card| c.index_spec())
}

/// Distinct cards carry distinct dense numbers.
pub proof fn lemma_card_indices_no_dup(cards: Seq<Card>)
    requires
        cards.no_duplicates(),
    ensures
        card_indices(cards).no_duplicates(),
{
    assert forall|a: int, b: int|
        0 <= a < card_indices(cards).len() && 0 <= b < card_indices(cards).len() && a
            != b implies card_indices(cards)[a] != card_indices(cards)[b] by {
        assert(cards[a] != cards[b]);
        if cards[a].index_spec() == cards[b].index_spec() {
            crate::structs::card::lemma_card_index_injective(cards[a], cards[b]);
        }
    }
}

/// The best five-card rank reachable from a longer run by leaving out one of
/// its first `k` positions.
pub open spec fn best_omit_rank(cards: Seq<int>, k: nat) -> u32
    decreases k,
{
    if k == 0 {
        0
    } else {
        let omitted = rank_five_spec(cards.remove(k - 1));
        let rest = best_omit_rank(cards, (k - 1) as nat);
        if omitted > rest {
            omitted
        } else {
            rest
        }
    }
}

/// The rank of a hole-cards-plus-board run as the oracle sees it: a direct
/// lookup at five or seven cards, the best omit-one hand at six cards, and 0
/// for lengths no poker hand has.
pub open spec fn eval_rank_spec(cards: Seq<int>) -> u32 {
    if cards.len() == 5 {
        rank_five_spec(cards)
    } else if cards.len() == 6 {
        best_omit_rank(cards, 6)
    } else if cards.len() == 7 {
        rank_seven_spec(cards)
    } else {
        0
    }
}

/// The hand-rank oracle: poker_eval's precomputed lookup tables, built once
/// per table and shared by every evaluation. The fields stay private so that
/// every value of this type holds genuine tables.
pub struct Evaluator {
    t5: poker_eval::eval::five::TableFive,
    t7: Arc<poker_eval::eval::seven::TableSeven>,
}

/// Relies on poker_eval::eval::five::build_tables: builds the five-card
/// lookup tables.
#[verifier::external_body]
fn build_five_tables() -> poker_eval::eval::five::TableFive {
    poker_eval::eval::five::build_tables(false)
}

/// Relies on poker_eval::eval::seven::build_tables: builds the seven-card
/// lookup tables.
#[verifier::external_body]
fn build_seven_tables() -> Arc<poker_eval::eval::seven::TableSeven> {
    poker_eval::eval::seven::build_tables(false)
}

impl Evaluator {
    /// Builds the oracle's lookup tables.
    pub fn new() -> Evaluator {
        Evaluator { t5: build_five_tables(), t7: build_seven_tables() }
    }

    /// Relies on poker_eval::eval::five::get_rank_five: the rank of five
    /// distinct cards, determined by the cards alone, since every table this
    /// type holds comes from poker_eval::eval::five::build_tables. Repeated
    /// cards or numbers outside 0..52 could index outside the tables, so
    /// they are ruled out.
    #[verifier::external_body]
    pub(crate) fn rank_five(&self, c: &Vec<usize>) -> (rank: u32)
        requires
            c@.len() == 5,
            forall|i: int| 0 <= i < 5 ==> c@[i] < 52,
            forall|i: int, j: int| 0 <= i < j < 5 ==> c@[i] != c@[j],
        ensures
            rank == rank_five_spec(c@.map_values(|x: usize| x as int)),
    {
        let cards: [usize; 5] = [c[0], c[1], c[2], c[3], c[4]];
        poker_eval::eval::five::get_rank_five(&self.t5, cards)
    }

    /// Relies on poker_eval::eval::seven::get_rank: the rank of seven
    /// distinct cards, determined by the cards alone, since every table this
    /// type holds comes from poker_eval::eval::seven::build_tables. Repeated
    /// cards or numbers outside 0..52 could index outside the tables, so
    /// they are ruled out.
    #[verifier::external_body]
    pub(crate) fn rank_seven(&self, c: &Vec<usize>) -> (rank: u32)
        requires
            c@.len() == 7,
            forall|i: int| 0 <= i < 7 ==> c@[i] < 52,
            forall|i: int, j: int| 0 <= i < j < 7 ==> c@[i] != c@[j],
        ensures
            rank == rank_seven_spec(c@.map_values(|x: usize| x as int)),
    {
        let cards: [usize; 7] = [c[0], c[1], c[2], c[3], c[4], c[5], c[6]];
        poker_eval::eval::seven::get_rank(&self.t7, cards)
    }
}

} // verus!
