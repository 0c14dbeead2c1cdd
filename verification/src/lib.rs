//! A multi-table real-time Texas Hold'em poker server core.
//!
//! The crate holds the verified heart of the server: the poker hand state
//! machine (dealing, blinds, betting rounds, showdown and pot award), the
//! long-lived table with its seating policy, the wire message taxonomy, the
//! id-to-handle registry, and the decision logic of the room and player
//! actors. Channel plumbing, sockets and timers live outside the library and
//! drive it through plain values.

pub mod cards;
pub mod errors;
pub mod game;
pub mod laws;
pub mod messages;
pub mod player;
pub mod registry;
pub mod room;
pub mod routing;
pub mod table;

use vstd::prelude::*;

verus! {

/// Non-negative count of chips.
pub type ChipInt = u64;

/// Opaque string identifier of a connected player.
pub type PlayerId = String;

/// Opaque string identifier of a room; a table and its game share it.
pub type RoomId = String;

/// Stack every seat is given at the start of each hand.
pub const DEFAULT_CHIPS: u64 = 100;

/// Bound of every actor mailbox.
pub const CHANNEL_SIZE: usize = 8;

/// Seconds a player has to act before the turn timer folds them.
pub const TURN_TIMEOUT: u64 = 30;

} // verus!
