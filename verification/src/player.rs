//! Player identities and the per-seat wrappers around them.
//!
//! A `Player` is immutable after construction. A `TablePlayer` carries the
//! per-seat flags that live as long as the player is seated; a `GamePlayer`
//! carries the per-hand behavioural flags and is rebuilt each hand.

use vstd::prelude::*;

verus! {

/// A connected identity: opaque id and display name.
#[derive(Debug, Clone, PartialEq, Eq)]
pub struct Player {
    pub id: String,
    pub username: String,
}

impl Player {
    /// Builds a player from its id and username.
    pub fn new(id: String, username: String) -> (r: Player)
        ensures
            r.id == id,
            r.username == username,
    {
        Player { id, username }
    }
}

/// A seat in a running hand: the player and their auto-action flags.
#[derive(Debug, Clone, PartialEq, Eq)]
pub struct GamePlayer {
    pub info: Player,
    pub check_fold: bool,
    pub call_any: bool,
}

impl GamePlayer {
    /// Wraps a player for a new hand; both auto-action flags start unset.
    pub fn new(player: Player) -> (r: GamePlayer)
        ensures
            r.info == player,
            !r.check_fold,
            !r.call_any,
    {
        GamePlayer { info: player, check_fold: false, call_any: false }
    }
}

/// A seat at a table: the player and the flags that survive hand boundaries.
#[derive(Debug, Clone, PartialEq, Eq)]
pub struct TablePlayer {
    pub info: Player,
    pub wait_for_big_blind: bool,
    pub sit_out_next_hand: bool,
    pub sit_out_next_big_blind: bool,
}

impl TablePlayer {
    /// Seats a player; new seats start waiting for the big blind.
    pub fn new(player: Player) -> (r: TablePlayer)
        ensures
            r.info == player,
            r.wait_for_big_blind,
            !r.sit_out_next_hand,
            !r.sit_out_next_big_blind,
    {
        TablePlayer {
            info: player,
            wait_for_big_blind: true,
            sit_out_next_hand: false,
            sit_out_next_big_blind: false,
        }
    }
}

} // verus!
