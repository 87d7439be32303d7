use vstd::prelude::*;

verus! {

/// The category label belonging to a numeric hand rank, following the rank
/// oracle's bands: 0 is the worst high card, 7461 the best straight flush.
pub open spec fn words_spec(rank: u32) -> &'static str {
    if 7452 <= rank && rank <= 7461 {
        "Straight Flush"
    } else if 7296 <= rank && rank <= 7451 {
        "Four of a Kind"
    } else if 7140 <= rank && rank <= 7295 {
        "Full House"
    } else if 5863 <= rank && rank <= 7139 {
        "Flush"
    } else if 5853 <= rank && rank <= 5862 {
        "Straight"
    } else if 4995 <= rank && rank <= 5852 {
        "Three of a Kind"
    } else if 4137 <= rank && rank <= 4994 {
        "Two Pair"
    } else if 1277 <= rank && rank <= 4136 {
        "One Pair"
    } else if rank <= 1276 {
        "High Card"
    } else {
        "Unknown Hand"
    }
}

/// Translates a numeric hand rank to the name of its hand category.
pub fn rank_to_words(rank: u32) -> (words: &'static str)
    ensures
        words == words_spec(rank),
{
    if 7452 <= rank && rank <= 7461 {
        "Straight Flush"
    } else if 7296 <= rank && rank <= 7451 {
        "Four of a Kind"
    } else if 7140 <= rank && rank <= 7295 {
        "Full House"
    } else if 5863 <= rank && rank <= 7139 {
        "Flush"
    } else if 5853 <= rank && rank <= 5862 {
        "Straight"
    } else if 4995 <= rank && rank <= 5852 {
        "Three of a Kind"
    } else if 4137 <= rank && rank <= 4994 {
        "Two Pair"
    } else if 1277 <= rank && rank <= 4136 {
        "One Pair"
    } else if rank <= 1276 {
        "High Card"
    } else {
        "Unknown Hand"
    }
}

} // verus!
