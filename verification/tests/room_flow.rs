use poker_reloaded::errors::PokerError;
use poker_reloaded::messages::{
    Either, PokerMessage, RoomMessage, ServerLobby, ServerRoomPayload,
};
use poker_reloaded::player::Player;
use poker_reloaded::room::{RoomCore, RoomEvent, RoomOutcome, TimerAction};
use poker_reloaded::table::Table;

fn player(n: usize) -> Player {
    Player::new(format!("p{}", n), format!("user{}", n))
}

fn fresh_room() -> RoomCore {
    RoomCore::new(Table::default())
}

fn sit(core: &mut RoomCore, p: &Player) -> RoomOutcome {
    core.handle_message(RoomEvent::SitTable { player: p.clone() })
}

fn update_state(msg: &PokerMessage) -> &poker_reloaded::messages::PublicGameState {
    match msg {
        PokerMessage::Server(Either::Room(RoomMessage {
            payload: ServerRoomPayload::GameUpdate(s),
            ..
        })) => s,
        other => panic!("expected a game update, got {:?}", other),
    }
}

fn new_game_state(msg: &PokerMessage) -> &poker_reloaded::messages::PublicGameState {
    match msg {
        PokerMessage::Server(Either::Room(RoomMessage {
            payload: ServerRoomPayload::NewGame(s),
            ..
        })) => s,
        other => panic!("expected a new game, got {:?}", other),
    }
}

/// The lobby lists the seeded table and a chat line echoes back.
#[test]
fn lobby_list_and_chat_echo() {
    let mut core = fresh_room();
    // The lobby asks every room for its configuration and replies with
    // the list; with the one seeded room the list has one entry.
    let configs = vec![core.get_table_config()];
    let listing = PokerMessage::table_list(configs);
    match &listing {
        PokerMessage::Server(Either::Lobby(ServerLobby::TableList(tables))) => {
            assert_eq!(tables.len(), 1);
            assert_eq!(tables[0].id, "69420");
            assert_eq!(tables[0].name, "Pocket Rocket Dreams");
            assert_eq!(tables[0].min_players, 2);
            assert_eq!(tables[0].max_players, 9);
            assert_eq!(tables[0].small_blind, 1);
            assert_eq!(tables[0].big_blind, 2);
        },
        other => panic!("expected a table list, got {:?}", other),
    }
    let p1 = player(1);
    let o = core.handle_message(RoomEvent::Chat {
        from: p1.id.clone(),
        message: "Hello, World!".to_string(),
    });
    assert_eq!(o.reply, Ok(()));
    assert_eq!(o.broadcasts.len(), 1);
    assert_eq!(
        o.broadcasts[0],
        PokerMessage::chat_broadcast(
            "69420".to_string(),
            p1.id.clone(),
            "Hello, World!".to_string()
        )
    );
}

/// Two players sit down and the hand starts with blinds posted.
#[test]
fn two_player_sit_starts_a_hand() {
    let mut core = fresh_room();
    let p1 = player(1);
    let p2 = player(2);

    let o1 = sit(&mut core, &p1);
    assert_eq!(o1.reply, Ok(()));
    assert_eq!(o1.broadcasts.len(), 1);
    assert_eq!(
        o1.broadcasts[0],
        PokerMessage::sit_table_broadcast("69420".to_string(), p1.clone(), 0)
    );
    assert!(o1.deals.is_empty());

    let o2 = sit(&mut core, &p2);
    assert_eq!(o2.reply, Ok(()));
    assert_eq!(o2.broadcasts.len(), 2);
    assert_eq!(
        o2.broadcasts[0],
        PokerMessage::sit_table_broadcast("69420".to_string(), p2.clone(), 1)
    );
    let s = new_game_state(&o2.broadcasts[1]);
    assert_eq!(s.id, "69420");
    assert_eq!(s.dealer_idx, 0);
    assert_eq!(s.pot, 3);
    assert_eq!(s.to_call, 2);
    assert_eq!(s.min_raise, 2);
    // Heads-up, the seat after the big blind is the small blind itself:
    // the second player opens the action.
    assert_eq!(s.current_player_idx, 1);
    assert_eq!(s.stacks, vec![98, 99]);
    assert_eq!(s.bets, vec![2, 1]);
    // The seat shown to act is among the seats still to act.
    assert!(s.round_active_players.contains(&s.current_player_idx));

    // Each seated player gets a private deal of two distinct cards.
    assert_eq!(o2.deals.len(), 2);
    let mut cards = std::collections::BTreeSet::new();
    for (pid, msg) in &o2.deals {
        match msg {
            PokerMessage::Server(Either::Room(RoomMessage {
                payload: ServerRoomPayload::DealHand(a, b),
                ..
            })) => {
                assert!(*a < 52 && *b < 52);
                assert!(cards.insert(*a));
                assert!(cards.insert(*b));
            },
            other => panic!("expected a deal for {}, got {:?}", pid, other),
        }
    }
    assert_eq!(cards.len(), 4);
    // The turn timer is armed for the player to act.
    match &o2.timer {
        TimerAction::Arm(p, _) => assert_eq!(p.id, p2.id),
        other => panic!("expected an armed timer, got {:?}", other),
    }
}

/// A buy-in over the sourced chips is refused before reaching the room.
#[test]
fn oversized_buy_in_is_rejected() {
    let p1 = player(1);
    let msg = PokerMessage::sit_table("69420".to_string(), 101);
    let decision = poker_reloaded::routing::route_message(&p1, msg);
    assert_eq!(
        decision,
        poker_reloaded::routing::RouteDecision::Reject {
            room_id: "69420".to_string(),
            error: PokerError::InsufficientChips,
        }
    );
    assert_eq!(
        PokerError::InsufficientChips.message(),
        "Insufficient Chips".to_string()
    );
    // The exact buy-in passes through to the room.
    let msg = PokerMessage::sit_table("69420".to_string(), 100);
    match poker_reloaded::routing::route_message(&p1, msg) {
        poker_reloaded::routing::RouteDecision::RoomCommand { room_id, event } => {
            assert_eq!(room_id, "69420");
            assert_eq!(event, RoomEvent::SitTable { player: p1.clone() });
        },
        other => panic!("expected a room command, got {:?}", other),
    }
}

/// Betting out of turn is refused with no broadcast.
#[test]
fn not_your_turn_is_rejected() {
    let mut core = fresh_room();
    let p1 = player(1);
    let p2 = player(2);
    sit(&mut core, &p1);
    sit(&mut core, &p2);
    // It is the second player's turn; the first player tries to bet.
    let o = core.handle_message(RoomEvent::Bet { player: p1.clone(), chips: 10 });
    assert_eq!(o.reply, Err(PokerError::NotYourTurn));
    assert!(o.broadcasts.is_empty());
    assert_eq!(PokerError::NotYourTurn.message(), "Not your turn".to_string());
}

/// A full heads-up hand: call, checks on every street, a river bet and a
/// fold, then the next hand starts with the dealer moved one seat.
#[test]
fn full_heads_up_hand() {
    let mut core = fresh_room();
    let p1 = player(1);
    let p2 = player(2);
    sit(&mut core, &p1);
    sit(&mut core, &p2);

    // Preflop: P2 calls 2, P1 checks 2.
    let o = core.handle_message(RoomEvent::Bet { player: p2.clone(), chips: 2 });
    assert_eq!(o.reply, Ok(()));
    assert_eq!(o.broadcasts.len(), 1);
    let o = core.handle_message(RoomEvent::Bet { player: p1.clone(), chips: 2 });
    assert_eq!(o.reply, Ok(()));
    let s = update_state(&o.broadcasts[0]);
    assert_eq!(s.community_cards.len(), 3);
    assert_eq!(s.bets, vec![0, 0]);
    assert_eq!(s.pot, 4);

    // Flop and turn: both check.
    for street in 0..2 {
        let o = core.handle_message(RoomEvent::Bet { player: p2.clone(), chips: 0 });
        assert_eq!(o.reply, Ok(()), "street {}", street);
        let o = core.handle_message(RoomEvent::Bet { player: p1.clone(), chips: 0 });
        assert_eq!(o.reply, Ok(()), "street {}", street);
        assert_eq!(o.broadcasts.len(), 1);
    }

    // River: P2 bets 2, P1 folds; the pot goes to P2 and, with both still
    // seated, a fresh hand starts with the dealer advanced to seat 1.
    let o = core.handle_message(RoomEvent::Bet { player: p2.clone(), chips: 2 });
    assert_eq!(o.reply, Ok(()));
    let o = core.handle_message(RoomEvent::Fold { player: p1.clone() });
    assert_eq!(o.reply, Ok(()));
    assert_eq!(o.broadcasts.len(), 2);
    let s = update_state(&o.broadcasts[0]);
    // P1 committed 2, P2 committed 4 and won the pot of 6.
    assert_eq!(s.stacks, vec![98, 102]);
    assert_eq!(s.pot, 0);
    let s2 = new_game_state(&o.broadcasts[1]);
    assert_eq!(s2.dealer_idx, 1);
    assert_eq!(s2.pot, 3);
    assert_eq!(o.deals.len(), 2);
}

/// The armed timer folds the player to act exactly once; stale epochs and
/// cancelled timers do nothing.
#[test]
fn turn_timer_folds_once_per_arming() {
    let mut core = fresh_room();
    let p1 = player(1);
    let p2 = player(2);
    sit(&mut core, &p1);
    let o = sit(&mut core, &p2);
    let (captured, epoch) = match &o.timer {
        TimerAction::Arm(p, e) => (p.clone(), *e),
        other => panic!("expected an armed timer, got {:?}", other),
    };
    assert_eq!(captured.id, p2.id);

    // The timer fires: the captured player is folded, the hand completes
    // (one live seat remains) and the next hand starts immediately.
    let o = core.handle_message(RoomEvent::TimerFire { epoch, player: captured.clone() });
    assert_eq!(o.broadcasts.len(), 2);
    let s = update_state(&o.broadcasts[0]);
    // P2 folded away the small blind: P1 took the 3-chip pot.
    assert_eq!(s.stacks, vec![101, 99]);
    let s2 = new_game_state(&o.broadcasts[1]);
    assert_eq!(s2.dealer_idx, 1);

    // A second fire with the consumed epoch is ignored.
    let o = core.handle_message(RoomEvent::TimerFire { epoch, player: captured });
    assert_eq!(o.reply, Ok(()));
    assert!(o.broadcasts.is_empty());
    assert!(o.deals.is_empty());
    assert_eq!(o.timer, TimerAction::Keep);
}

/// A freshly seated player who sits the next hand out keeps the hand
/// from starting while too few seats stay eligible.
#[test]
fn sitting_out_newcomer_delays_the_hand() {
    let mut core = fresh_room();
    let p1 = player(1);
    let p2 = player(2);
    assert_eq!(sit(&mut core, &p1).reply, Ok(()));
    let o = core.handle_message(RoomEvent::SitOutNextHand { player: p1.clone(), value: true });
    assert_eq!(o.reply, Ok(()));
    // The second sit is announced, but only one seat is eligible, so no
    // hand starts and no cards go out.
    let o = sit(&mut core, &p2);
    assert_eq!(o.reply, Ok(()));
    assert_eq!(o.broadcasts.len(), 1);
    assert!(o.deals.is_empty());
    assert_eq!(o.timer, TimerAction::Keep);
    // Once the flag is cleared, the next seat to arrive starts the hand.
    let o = core.handle_message(RoomEvent::SitOutNextHand { player: p1.clone(), value: false });
    assert_eq!(o.reply, Ok(()));
    let o = sit(&mut core, &player(3));
    assert_eq!(o.reply, Ok(()));
    assert_eq!(o.broadcasts.len(), 2);
    let s = new_game_state(&o.broadcasts[1]);
    assert_eq!(s.players.len(), 3);
}

/// The tenth player to try the nine-seat table is turned away.
#[test]
fn table_full_rejects_the_tenth_player() {
    let mut core = fresh_room();
    for i in 0..9 {
        let o = sit(&mut core, &player(i));
        assert_eq!(o.reply, Ok(()), "seat {}", i);
    }
    let o = sit(&mut core, &player(9));
    assert_eq!(o.reply, Err(PokerError::TableFull));
    assert!(o.broadcasts.is_empty());
    assert_eq!(PokerError::TableFull.message(), "Table is full".to_string());
}

/// Sitting the same id twice is refused.
#[test]
fn sitting_twice_is_rejected() {
    let mut core = fresh_room();
    let p1 = player(1);
    assert_eq!(sit(&mut core, &p1).reply, Ok(()));
    let o = sit(&mut core, &p1);
    assert_eq!(o.reply, Err(PokerError::AlreadySeated));
    assert!(o.broadcasts.is_empty());
}

/// Per-seat flag commands: an unseated id is refused, the pre-commit
/// flags need a running hand, and a seated id succeeds.
#[test]
fn flag_commands_follow_the_seating() {
    let mut core = fresh_room();
    let p1 = player(1);
    let stranger = player(9);
    // Nobody is seated yet: the table flags miss, the hand flags need a
    // running hand.
    let o = core.handle_message(RoomEvent::WaitForBigBlind { player: p1.clone(), value: false });
    assert_eq!(o.reply, Err(PokerError::PlayerNotFound));
    let o = core.handle_message(RoomEvent::CheckFold { player: p1.clone(), value: true });
    assert_eq!(o.reply, Err(PokerError::GameInactive));
    let o = core.handle_message(RoomEvent::CallAny { player: p1.clone(), value: true });
    assert_eq!(o.reply, Err(PokerError::GameInactive));
    // With a hand running, a dealt-in id succeeds and a stranger misses.
    sit(&mut core, &p1);
    sit(&mut core, &player(2));
    let o = core.handle_message(RoomEvent::SitOutNextBigBlind { player: p1.clone(), value: true });
    assert_eq!(o.reply, Ok(()));
    assert!(o.broadcasts.is_empty());
    let o = core.handle_message(RoomEvent::CheckFold { player: p1.clone(), value: true });
    assert_eq!(o.reply, Ok(()));
    let o = core.handle_message(RoomEvent::CallAny { player: stranger.clone(), value: true });
    assert_eq!(o.reply, Err(PokerError::PlayerNotFound));
    let o = core.handle_message(RoomEvent::SitOutNextHand { player: stranger, value: true });
    assert_eq!(o.reply, Err(PokerError::PlayerNotFound));
}

/// Betting with no hand running is refused.
#[test]
fn bet_without_a_hand_is_inactive() {
    let mut core = fresh_room();
    let p1 = player(1);
    let o = core.handle_message(RoomEvent::Bet { player: p1, chips: 2 });
    assert_eq!(o.reply, Err(PokerError::GameInactive));
    assert_eq!(PokerError::GameInactive.message(), "Game is not active".to_string());
}
