//! Error taxonomy of the room and the hand engine.
//!
//! Errors are returned through reply values, never thrown across actor
//! boundaries; the player actor turns them into outbound error envelopes.

use vstd::prelude::*;

verus! {

/// Everything a room operation or the hand engine can refuse.
#[derive(Debug, Clone, PartialEq, Eq)]
pub enum PokerError {
    /// The table already seats its maximum of players.
    TableFull,
    /// The player's id is already present at the table.
    AlreadySeated,
    /// A buy-in above the chips the player can source.
    InsufficientChips,
    /// Fewer eligible seats than the table's minimum.
    NotEnoughPlayers,
    /// The operation needs a running hand and there is none.
    GameInactive,
    /// A new hand cannot start while one is in progress.
    GameInProgress,
    /// The acting player is not the seat whose turn it is.
    NotYourTurn,
    /// The player's id is not seated at the table.
    PlayerNotFound,
    /// The hand engine refused the bet amount.
    InvalidBet,
    /// The addressed room id is not registered.
    UnknownRoom,
    /// An inbound frame that parses as no known message.
    InvalidMessage,
}

impl PokerError {
    /// The wire text of this error, as reported to the originating client.
    pub fn message(&self) -> (r: String)
        ensures
            r@ == self.message_spec(),
    {
        match self {
            PokerError::TableFull => "Table is full".to_string(),
            PokerError::AlreadySeated => "Already sitting at table".to_string(),
            PokerError::InsufficientChips => "Insufficient Chips".to_string(),
            PokerError::NotEnoughPlayers => "Not enough players to start game".to_string(),
            PokerError::GameInactive => "Game is not active".to_string(),
            PokerError::GameInProgress => "Game is already in progress".to_string(),
            PokerError::NotYourTurn => "Not your turn".to_string(),
            PokerError::PlayerNotFound => "Player not found".to_string(),
            PokerError::InvalidBet => "Invalid bet".to_string(),
            PokerError::UnknownRoom => "Not a valid room id".to_string(),
            PokerError::InvalidMessage => "Invalid Message".to_string(),
        }
    }

    /// The wire text of each error variant.
    pub open spec fn message_spec(&self) -> Seq<char> {
        match self {
            PokerError::TableFull => "Table is full"@,
            PokerError::AlreadySeated => "Already sitting at table"@,
            PokerError::InsufficientChips => "Insufficient Chips"@,
            PokerError::NotEnoughPlayers => "Not enough players to start game"@,
            PokerError::GameInactive => "Game is not active"@,
            PokerError::GameInProgress => "Game is already in progress"@,
            PokerError::NotYourTurn => "Not your turn"@,
            PokerError::PlayerNotFound => "Player not found"@,
            PokerError::InvalidBet => "Invalid bet"@,
            PokerError::UnknownRoom => "Not a valid room id"@,
            PokerError::InvalidMessage => "Invalid Message"@,
        }
    }
}

} // verus!
