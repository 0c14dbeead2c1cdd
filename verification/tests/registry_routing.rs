use poker_reloaded::errors::PokerError;
use poker_reloaded::messages::PokerMessage;
use poker_reloaded::player::Player;
use poker_reloaded::registry::Registry;
use poker_reloaded::room::RoomEvent;
use poker_reloaded::routing::{route_message, RouteDecision};

#[test]
fn registry_upserts_and_deletes() {
    let mut reg: Registry<u32> = Registry::new();
    assert!(reg.get(&"a".to_string()).is_none());
    reg.set("a".to_string(), 1);
    reg.set("b".to_string(), 2);
    assert_eq!(reg.get(&"a".to_string()), Some(&1));
    assert_eq!(reg.get(&"b".to_string()), Some(&2));
    // Upsert replaces the handle under the id, keeping insertion order.
    reg.set("a".to_string(), 7);
    assert_eq!(reg.get(&"a".to_string()), Some(&7));
    assert_eq!(reg.get_all(), &vec![7, 2]);
    // Deleting a missing id is a no-op; deleting a present one removes it.
    reg.delete(&"zzz".to_string());
    assert_eq!(reg.get_all(), &vec![7, 2]);
    reg.delete(&"a".to_string());
    assert!(reg.get(&"a".to_string()).is_none());
    assert_eq!(reg.get_all(), &vec![2]);
}

#[test]
fn routes_client_commands_in_order() {
    let p = Player::new("id1".to_string(), "u1".to_string());
    let msgs = vec![
        PokerMessage::get_tables(),
        PokerMessage::subscribe_room("r".to_string()),
        PokerMessage::chat("r".to_string(), "hi".to_string()),
        PokerMessage::bet("r".to_string(), 5),
        PokerMessage::fold("r".to_string()),
    ];
    let decisions: Vec<RouteDecision> =
        msgs.into_iter().map(|m| route_message(&p, m)).collect();
    // One decision per command, in the order the commands were sent.
    assert_eq!(decisions.len(), 5);
    assert_eq!(decisions[0], RouteDecision::QueryTables);
    assert_eq!(decisions[1], RouteDecision::Subscribe { room_id: "r".to_string() });
    assert_eq!(
        decisions[2],
        RouteDecision::RoomCommand {
            room_id: "r".to_string(),
            event: RoomEvent::Chat { from: "id1".to_string(), message: "hi".to_string() },
        }
    );
    assert_eq!(
        decisions[3],
        RouteDecision::RoomCommand {
            room_id: "r".to_string(),
            event: RoomEvent::Bet { player: p.clone(), chips: 5 },
        }
    );
    assert_eq!(
        decisions[4],
        RouteDecision::RoomCommand {
            room_id: "r".to_string(),
            event: RoomEvent::Fold { player: p.clone() },
        }
    );
}

#[test]
fn server_messages_are_forwarded() {
    let p = Player::new("id1".to_string(), "u1".to_string());
    let msg = PokerMessage::error_room("r".to_string(), "oops".to_string());
    let routed = route_message(&p, msg.clone());
    assert_eq!(routed, RouteDecision::Forward(msg));
}

#[test]
fn error_messages_match_the_wire_text() {
    assert_eq!(PokerError::TableFull.message(), "Table is full");
    assert_eq!(PokerError::AlreadySeated.message(), "Already sitting at table");
    assert_eq!(PokerError::InsufficientChips.message(), "Insufficient Chips");
    assert_eq!(
        PokerError::NotEnoughPlayers.message(),
        "Not enough players to start game"
    );
    assert_eq!(PokerError::GameInactive.message(), "Game is not active");
    assert_eq!(PokerError::GameInProgress.message(), "Game is already in progress");
    assert_eq!(PokerError::NotYourTurn.message(), "Not your turn");
    assert_eq!(PokerError::PlayerNotFound.message(), "Player not found");
    assert_eq!(PokerError::InvalidBet.message(), "Invalid bet");
    assert_eq!(PokerError::UnknownRoom.message(), "Not a valid room id");
    assert_eq!(PokerError::InvalidMessage.message(), "Invalid Message");
}
