//! The player actor's decision core: the single writer of one client's
//! outbound channel.
//!
//! At run time a task owns one connected player, receives inbound frames
//! and room broadcasts, and routes each one: lobby queries fan out over
//! the room registry, room commands go to the addressed room's mailbox,
//! buy-ins beyond what the player can source are refused on the spot, and
//! server-originated messages are copied to the client. The decision for
//! one message is a pure function, so a client's ordered commands map
//! one-for-one, in order, onto room operations.

use vstd::prelude::*;

use crate::errors::PokerError;
use crate::messages::{ClientLobby, ClientRoomPayload, Either, PlayerEvent, PokerMessage};
use crate::player::Player;
use crate::room::RoomEvent;
use crate::{RoomId, DEFAULT_CHIPS};

verus! {

/// Connection metadata the server keeps for one client.
#[derive(Debug, Clone, PartialEq, Eq)]
pub struct ConnectionInfo {
    pub ip: String,
    pub user_agent: String,
}

/// Where one inbound message goes.
#[derive(Debug, Clone, PartialEq, Eq)]
pub enum RouteDecision {
    /// Collect every table's configuration and reply with the list.
    QueryTables,
    /// Subscribe the client to this room's broadcast stream.
    Subscribe { room_id: RoomId },
    /// Forward this operation to the addressed room.
    RoomCommand { room_id: RoomId, event: RoomEvent },
    /// Refuse on the spot with a room-scoped error.
    Reject { room_id: RoomId, error: PokerError },
    /// Copy a server-originated message to the client.
    Forward(PokerMessage),
}

/// A copy of a player value.
pub fn clone_player(p: &Player) -> (r: Player)
    ensures
        r == *p,
{
    Player { id: p.id.clone(), username: p.username.clone() }
}

/// Where one inbound message goes, as a value.
pub open spec fn route_spec(player: Player, msg: PokerMessage) -> RouteDecision {
    match msg {
        PokerMessage::Client(Either::Lobby(ClientLobby::GetTables)) => RouteDecision::QueryTables,
        PokerMessage::Client(Either::Room(rm)) => {
            let room_id = rm.room_id;
            match rm.payload {
                ClientRoomPayload::Subscribe => RouteDecision::Subscribe { room_id },
                ClientRoomPayload::Chat(message) => RouteDecision::RoomCommand {
                    room_id,
                    event: RoomEvent::Chat { from: player.id, message },
                },
                ClientRoomPayload::SitTable { chips } => if chips > DEFAULT_CHIPS {
                    RouteDecision::Reject { room_id, error: PokerError::InsufficientChips }
                } else {
                    RouteDecision::RoomCommand { room_id, event: RoomEvent::SitTable { player } }
                },
                ClientRoomPayload::PlayerAction(PlayerEvent::Bet(chips)) => {
                    RouteDecision::RoomCommand { room_id, event: RoomEvent::Bet { player, chips } }
                },
                ClientRoomPayload::PlayerAction(PlayerEvent::Fold) => RouteDecision::RoomCommand {
                    room_id,
                    event: RoomEvent::Fold { player },
                },
                ClientRoomPayload::SitOutNextHand(value) => RouteDecision::RoomCommand {
                    room_id,
                    event: RoomEvent::SitOutNextHand { player, value },
                },
                ClientRoomPayload::SitOutNextBigBlind(value) => RouteDecision::RoomCommand {
                    room_id,
                    event: RoomEvent::SitOutNextBigBlind { player, value },
                },
                ClientRoomPayload::WaitForBigBlind(value) => RouteDecision::RoomCommand {
                    room_id,
                    event: RoomEvent::WaitForBigBlind { player, value },
                },
                ClientRoomPayload::CheckFold(value) => RouteDecision::RoomCommand {
                    room_id,
                    event: RoomEvent::CheckFold { player, value },
                },
                ClientRoomPayload::CallAny(value) => RouteDecision::RoomCommand {
                    room_id,
                    event: RoomEvent::CallAny { player, value },
                },
            }
        },
        PokerMessage::Server(m) => RouteDecision::Forward(PokerMessage::Server(m)),
    }
}

/// Routes one inbound message for this player.
pub fn route_message(player: &Player, msg: PokerMessage) -> (r: RouteDecision)
    ensures
        r == route_spec(*player, msg),
{
    match msg {
        PokerMessage::Client(Either::Lobby(ClientLobby::GetTables)) => RouteDecision::QueryTables,
        PokerMessage::Client(Either::Room(rm)) => {
            let room_id = rm.room_id;
            match rm.payload {
                ClientRoomPayload::Subscribe => RouteDecision::Subscribe { room_id },
                ClientRoomPayload::Chat(message) => RouteDecision::RoomCommand {
                    room_id,
                    event: RoomEvent::Chat { from: player.id.clone(), message },
                },
                ClientRoomPayload::SitTable { chips } => if chips > DEFAULT_CHIPS {
                    RouteDecision::Reject { room_id, error: PokerError::InsufficientChips }
                } else {
                    RouteDecision::RoomCommand {
                        room_id,
                        event: RoomEvent::SitTable { player: clone_player(player) },
                    }
                },
                ClientRoomPayload::PlayerAction(PlayerEvent::Bet(chips)) => {
                    RouteDecision::RoomCommand {
                        room_id,
                        event: RoomEvent::Bet { player: clone_player(player), chips },
                    }
                },
                ClientRoomPayload::PlayerAction(PlayerEvent::Fold) => RouteDecision::RoomCommand {
                    room_id,
                    event: RoomEvent::Fold { player: clone_player(player) },
                },
                ClientRoomPayload::SitOutNextHand(value) => RouteDecision::RoomCommand {
                    room_id,
                    event: RoomEvent::SitOutNextHand { player: clone_player(player), value },
                },
                ClientRoomPayload::SitOutNextBigBlind(value) => RouteDecision::RoomCommand {
                    room_id,
                    event: RoomEvent::SitOutNextBigBlind { player: clone_player(player), value },
                },
                ClientRoomPayload::WaitForBigBlind(value) => RouteDecision::RoomCommand {
                    room_id,
                    event: RoomEvent::WaitForBigBlind { player: clone_player(player), value },
                },
                ClientRoomPayload::CheckFold(value) => RouteDecision::RoomCommand {
                    room_id,
                    event: RoomEvent::CheckFold { player: clone_player(player), value },
                },
                ClientRoomPayload::CallAny(value) => RouteDecision::RoomCommand {
                    room_id,
                    event: RoomEvent::CallAny { player: clone_player(player), value },
                },
            }
        },
        PokerMessage::Server(m) => RouteDecision::Forward(PokerMessage::Server(m)),
    }
}

/// The decisions for a sequence of inbound messages, in arrival order.
pub open spec fn routed_all(player: Player, msgs: Seq<PokerMessage>) -> Seq<RouteDecision> {
    Seq::new(msgs.len(), |i: int| route_spec(player, msgs[i]))
}

/// Routing is one-for-one and order-preserving: a client's `n`-th command
/// becomes the `n`-th dispatched decision. Delivery order itself is the
/// mailbox's own first-in first-out guarantee.
pub proof fn lemma_route_order(player: Player, msgs: Seq<PokerMessage>)
    ensures
        routed_all(player, msgs).len() == msgs.len(),
        forall|i: int|
            0 <= i < msgs.len() ==> #[trigger] routed_all(player, msgs)[i] == route_spec(
                player,
                msgs[i],
            ),
{
}

} // verus!
