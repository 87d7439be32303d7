use vstd::prelude::*;

use super::card::Card;

verus! {

/// The stage a hand of Texas Hold'em is in. `Waiting` is the idle table
/// before the first hand starts.
#[derive(Clone, Copy, Debug, PartialEq, Eq, Structural)]
pub enum GamePhase {
    Waiting,
    Preflop,
    Flop,
    Turn,
    River,
    Showdown,
}

/// The betting actions a seat can take, and the idle state between them.
#[derive(Clone, Copy, Debug, PartialEq, Eq, Structural)]
pub enum PlayerActions {
    Idle,
    Bet,
    Check,
    Call,
    Fold,
}

/// Why the table refused an action, or why a deal could not be completed.
#[derive(Clone, Copy, Debug, PartialEq, Eq, Structural)]
pub enum ActionError {
    InsufficientChips,
    BetTooLow,
    MustActOnBet,
    OutOfTurn,
    InvalidSeat,
    InsufficientCards,
}

impl ActionError {
    /// The message sent to the offending connection.
    pub open spec fn message_spec(self) -> &'static str {
        match self {
            ActionError::InsufficientChips => "Player doesn't have enough chips",
            ActionError::BetTooLow => "Bet must be at least the current bet (or use call)",
            ActionError::MustActOnBet => "Cannot check: need to call, raise or fold",
            ActionError::OutOfTurn => "Not this seat's turn",
            ActionError::InvalidSeat => "No such seat at the table",
            ActionError::InsufficientCards => "Not enough cards in deck",
        }
    }

    pub fn message(&self) -> (m: &'static str)
        ensures
            m == self.message_spec(),
    {
        match self {
            ActionError::InsufficientChips => "Player doesn't have enough chips",
            ActionError::BetTooLow => "Bet must be at least the current bet (or use call)",
            ActionError::MustActOnBet => "Cannot check: need to call, raise or fold",
            ActionError::OutOfTurn => "Not this seat's turn",
            ActionError::InvalidSeat => "No such seat at the table",
            ActionError::InsufficientCards => "Not enough cards in deck",
        }
    }
}

/// What a client may ask of the table.
#[derive(Debug, Clone)]
pub enum ClientMessage {
    Join(String),
    Bet(u32),
    Fold,
    Check,
    Call,
}

/// What the table tells its clients.
#[derive(Debug, Clone)]
pub enum ServerMessage {
    Welcome(String, usize),
    GameState(GameStateInfo),
    Error(String),
}

/// A snapshot of the table, broadcast after every accepted action.
#[derive(Debug, Clone)]
pub struct GameStateInfo {
    pub pot: u32,
    pub players: Vec<PlayerPublicInfo>,
    pub board: Vec<Card>,
    pub current_turn: usize,
    pub phase: GamePhase,
    pub winner: Option<usize>,
}

/// One seat as every client may see it. `hand` is filled only for the
/// viewer's own seat or once the hand has reached showdown.
#[derive(Debug, Clone)]
pub struct PlayerPublicInfo {
    pub id: usize,
    pub name: String,
    pub chips: u32,
    pub is_folded: bool,
    pub hand: Option<[Card; 2]>,
}

} // verus!
