use poker_reloaded::errors::PokerError;
use poker_reloaded::game::{Game, Round};
use poker_reloaded::player::{GamePlayer, Player};
use poker_reloaded::table::Table;
use poker_reloaded::DEFAULT_CHIPS;

fn player(n: usize) -> Player {
    Player::new(format!("p{}", n), format!("user{}", n))
}

fn seats(n: usize) -> Vec<GamePlayer> {
    (0..n).map(|i| GamePlayer::new(player(i))).collect()
}

/// A full deck whose tail is chosen so that, heads-up with dealer 0, seat
/// one holds a royal flush at showdown while seat zero holds a pair of
/// twos. Positions dealt: seat0 hole = deck[51], deck[49]; seat1 hole =
/// deck[50], deck[48]; board = deck[47] down to deck[43].
fn stacked_deck() -> Vec<u8> {
    let tail: [u8; 9] = [20, 13, 8, 9, 10, 11, 40, 12, 26];
    let chosen: Vec<u8> = tail.to_vec();
    let mut deck: Vec<u8> = (0u8..52).filter(|c| !chosen.contains(c)).collect();
    deck.extend_from_slice(&tail);
    assert_eq!(deck.len(), 52);
    deck
}

#[test]
fn test_game() {
    let table = Table::default();
    let n = table.max_players();
    let mut game = Game::new(
        table.id().clone(),
        seats(n),
        0,
        table.small_blind(),
        table.big_blind(),
    );
    assert!(matches!(game.round, Round::Preflop));
    // Everyone calls the big blind preflop and checks every later street.
    let mut steps: u32 = 0;
    while !game.is_over() {
        let target = game.current_bet();
        game.bet(target).expect("calling the table bet is always legal");
        steps += 1;
        assert!(steps < 100, "the hand must terminate");
    }
    // Chip conservation across the completed hand.
    let total: u64 = game.stacks.iter().sum();
    assert_eq!(total, n as u64 * DEFAULT_CHIPS);
    assert_eq!(game.total_pot, 0);
}

#[test]
fn heads_up_showdown_awards_best_hand() {
    let mut game = Game::with_deck("t1".to_string(), seats(2), 0, 1, 2, stacked_deck());
    // Hole cards come off the tail of the deck in seat order.
    assert_eq!(game.hands, vec![(26, 40), (12, 11)]);
    // Heads-up with dealer 0: seat 1 posts the small blind and acts first.
    assert_eq!(game.current_player_idx(), 1);
    assert_eq!(game.total_pot, 3);
    assert_eq!(game.round_data.bet, 2);
    // Seat 1 calls, seat 0 checks: preflop closes with all bets cleared.
    game.bet(2).unwrap();
    game.bet(2).unwrap();
    assert!(matches!(game.round, Round::Flop));
    assert_eq!(game.round_data.bet, 0);
    assert!(game.round_data.player_bet.iter().all(|&b| b == 0));
    assert_eq!(game.board, vec![10, 9, 8]);
    // Both check the flop, the turn and the river.
    for _ in 0..6 {
        game.bet(0).unwrap();
    }
    assert!(game.is_over());
    // Seat 1's royal flush beats seat 0's pair: the whole pot moves over.
    assert_eq!(game.stacks, vec![98, 102]);
    assert_eq!(game.total_pot, 0);
}

#[test]
fn undersized_raise_is_refused() {
    let mut game = Game::with_deck("t2".to_string(), seats(2), 0, 1, 2, stacked_deck());
    let before = game.clone();
    // Raising to 3 adds only 1 over the bet of 2; the minimum raise is 2.
    assert_eq!(game.bet(3), Err(PokerError::InvalidBet));
    assert_eq!(game, before);
    // Betting under the seat's own commitment is refused too.
    assert_eq!(game.bet(0), Err(PokerError::InvalidBet));
    assert_eq!(game, before);
    // A raise to 4 is legal and re-opens the action.
    assert_eq!(game.bet(4), Ok(3));
    assert_eq!(game.round_data.bet, 4);
    assert_eq!(game.round_data.min_raise, 2);
}

#[test]
fn fold_with_one_seat_left_completes_immediately() {
    let mut game = Game::with_deck("t3".to_string(), seats(2), 0, 1, 2, stacked_deck());
    // Seat 1 folds straight away: seat 0 takes the blinds at once.
    game.fold();
    assert!(game.is_over());
    assert_eq!(game.stacks, vec![101, 99]);
    assert_eq!(game.total_pot, 0);
}

#[test]
fn check_fold_flag_plays_the_seat_automatically() {
    let mut players = seats(2);
    players[0].check_fold = true;
    let mut game = Game::with_deck("t4".to_string(), players, 0, 1, 2, stacked_deck());
    // Seat 1 acts; seat 0 checks along automatically street after street.
    game.bet(2).unwrap();
    assert!(matches!(game.round, Round::Flop));
    game.bet(0).unwrap();
    assert!(matches!(game.round, Round::Turn));
    game.bet(0).unwrap();
    assert!(matches!(game.round, Round::River));
    game.bet(0).unwrap();
    assert!(game.is_over());
    assert_eq!(game.stacks, vec![98, 102]);
}

#[test]
fn check_fold_flag_folds_when_facing_a_bet() {
    let mut players = seats(2);
    players[0].check_fold = true;
    let mut game = Game::with_deck("t5".to_string(), players, 0, 1, 2, stacked_deck());
    // Seat 1 raises; seat 0's check-fold cannot check, so it folds.
    game.bet(4).unwrap();
    assert!(game.is_over());
    assert_eq!(game.stacks, vec![98, 102]);
}

#[test]
fn call_any_flag_calls_raises() {
    let mut players = seats(2);
    players[0].call_any = true;
    let mut game = Game::with_deck("t6".to_string(), players, 0, 1, 2, stacked_deck());
    // Seat 1 raises to 10 preflop; seat 0 calls automatically, and keeps
    // checking along on every later street.
    game.bet(10).unwrap();
    assert!(matches!(game.round, Round::Flop));
    game.bet(0).unwrap();
    game.bet(0).unwrap();
    game.bet(0).unwrap();
    assert!(game.is_over());
    assert_eq!(game.stacks, vec![90, 110]);
}

#[test]
fn overbet_is_capped_at_the_stack() {
    let mut game = Game::with_deck("t7".to_string(), seats(2), 0, 1, 2, stacked_deck());
    // Asking for more than the stack moves the seat all-in instead.
    assert_eq!(game.bet(1000), Ok(99));
    // The all-in seat left the hand, so the hand completes at once and
    // the remaining seat is awarded the pot.
    assert!(game.is_over());
    assert_eq!(game.stacks, vec![200, 0]);
}

#[test]
fn shuffled_hands_are_distinct_cards() {
    let game = Game::new("t8".to_string(), seats(9), 0, 1, 2);
    let mut seen = std::collections::BTreeSet::new();
    for &(a, b) in &game.hands {
        assert!(a < 52 && b < 52);
        assert!(seen.insert(a), "hole cards never repeat");
        assert!(seen.insert(b), "hole cards never repeat");
    }
    assert_eq!(seen.len(), 18);
}

#[test]
fn start_new_game_needs_enough_players() {
    let mut table = Table::default();
    assert_eq!(table.start_new_game(), Err(PokerError::NotEnoughPlayers));
    table.players.push(poker_reloaded::player::TablePlayer::new(player(0)));
    assert_eq!(table.start_new_game(), Err(PokerError::NotEnoughPlayers));
    table.players.push(poker_reloaded::player::TablePlayer::new(player(1)));
    assert_eq!(table.start_new_game(), Ok(()));
    // A second start while the hand runs is refused gracefully.
    assert_eq!(table.start_new_game(), Err(PokerError::GameInProgress));
}

#[test]
fn dealer_rotates_by_one_between_hands() {
    let mut table = Table::default();
    table.players.push(poker_reloaded::player::TablePlayer::new(player(0)));
    table.players.push(poker_reloaded::player::TablePlayer::new(player(1)));
    table.start_new_game().unwrap();
    assert_eq!(table.game.as_ref().unwrap().dealer_idx, 0);
    // Play the hand out: the seat to act folds, completing it.
    table.game.as_mut().map(|g| g.fold());
    assert!(table.game.as_ref().unwrap().is_over());
    table.start_new_game().unwrap();
    assert_eq!(table.game.as_ref().unwrap().dealer_idx, 1);
    table.game.as_mut().map(|g| g.fold());
    table.start_new_game().unwrap();
    assert_eq!(table.game.as_ref().unwrap().dealer_idx, 0);
}

#[test]
fn sitting_out_skips_the_next_hand() {
    let mut table = Table::default();
    for i in 0..3 {
        table.players.push(poker_reloaded::player::TablePlayer::new(player(i)));
    }
    table.start_new_game().unwrap();
    assert_eq!(table.game.as_ref().unwrap().players.len(), 3);
    // Finish the hand, then player 2 sits the next one out.
    while !table.game.as_ref().unwrap().is_over() {
        let _ = table.game.as_mut().unwrap().bet(2);
    }
    let p = player(2);
    table.set_sit_out_next_hand(&p, true).unwrap();
    table.start_new_game().unwrap();
    let ids: Vec<String> = table
        .game
        .as_ref()
        .unwrap()
        .players
        .iter()
        .map(|g| g.info.id.clone())
        .collect();
    assert_eq!(ids, vec!["p0".to_string(), "p1".to_string()]);
}

#[test]
fn flagged_newcomers_are_not_dealt_in() {
    // A player who joined since the last hand (here: ever) and sits the
    // next hand out is not eligible, so heads-up the start fails.
    let mut table = Table::default();
    table.players.push(poker_reloaded::player::TablePlayer::new(player(0)));
    table.players.push(poker_reloaded::player::TablePlayer::new(player(1)));
    let p = player(0);
    table.set_sit_out_next_hand(&p, true).unwrap();
    assert_eq!(table.start_new_game(), Err(PokerError::NotEnoughPlayers));
    // With a third player seated, the hand starts without the flagged one.
    table.players.push(poker_reloaded::player::TablePlayer::new(player(2)));
    assert_eq!(table.start_new_game(), Ok(()));
    let ids: Vec<String> = table
        .game
        .as_ref()
        .unwrap()
        .players
        .iter()
        .map(|g| g.info.id.clone())
        .collect();
    assert_eq!(ids, vec!["p1".to_string(), "p2".to_string()]);
}

#[test]
fn flag_setters_reject_unknown_players() {
    let mut table = Table::default();
    let ghost_player = player(7);
    assert_eq!(
        table.set_sit_out_next_hand(&ghost_player, true),
        Err(PokerError::PlayerNotFound)
    );
    assert_eq!(
        table.set_check_fold(&ghost_player, true),
        Err(PokerError::GameInactive)
    );
}
