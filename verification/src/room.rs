//! The room's decision core: the single writer of one table.
//!
//! At run time a mailbox task owns one `RoomCore` and feeds it one event
//! at a time, so everything here is sequential. Each handler takes the
//! room state and one event, and returns the reply for the sender and the
//! actions the surrounding task performs: broadcasts to fan out, private
//! deals to send through the player registry, and what to do with the
//! turn timer. Ghost fields of the outcome carry the intermediate states
//! the contracts speak of.
//!
//! The turn timer is an epoch machine. Arming bumps the epoch and records
//! that a timer is live; cancelling disarms it. A firing timer hands its
//! epoch back, and only a fire that carries the live epoch folds the
//! player it captured: stale or cancelled timers do nothing, so the timer
//! folds at most once per arming and never after cancellation.

use vstd::prelude::*;

use crate::errors::PokerError;
use crate::game::{advance_post, bet_step_post, bet_valid_spec, fold_step_post, Game};
use crate::messages::{game_update_msg_of, new_game_msg_of, PokerMessage};
use crate::player::{GamePlayer, Player, TablePlayer};
use crate::table::{eligible_seq, next_dealer_spec, same_except_players, Table, TableConfig};
use crate::{ChipInt, PlayerId, RoomId};

verus! {

/// What the room asks the surrounding task to do with the turn timer.
#[derive(Debug, Clone, PartialEq, Eq)]
pub enum TimerAction {
    /// Leave the timer as it is.
    Keep,
    /// Start a timer for this player under this epoch.
    Arm(Player, u64),
    /// Stop the running timer.
    Cancel,
}

/// Everything one handled event asks the surrounding task to perform.
pub struct RoomOutcome {
    /// The reply for the requesting client.
    pub reply: Result<(), PokerError>,
    /// The table configuration, for a configuration request.
    pub config: Option<TableConfig>,
    /// Events to fan out to every subscriber, in order.
    pub broadcasts: Vec<PokerMessage>,
    /// Private messages, each for one player id.
    pub deals: Vec<(PlayerId, PokerMessage)>,
    /// What to do with the turn timer.
    pub timer: TimerAction,
    /// The room as it stood when a new hand was attempted.
    pub mid_room: Ghost<RoomCore>,
    /// The hand right after the acted bet or fold, before it settled.
    pub hand_mid: Ghost<Game>,
    /// The hand once the action settled.
    pub hand_after: Ghost<Game>,
}

/// One inbound room operation.
#[derive(Debug, Clone, PartialEq, Eq)]
pub enum RoomEvent {
    GetTableConfig,
    Chat { from: PlayerId, message: String },
    SitTable { player: Player },
    Bet { player: Player, chips: ChipInt },
    Fold { player: Player },
    SitOutNextHand { player: Player, value: bool },
    SitOutNextBigBlind { player: Player, value: bool },
    WaitForBigBlind { player: Player, value: bool },
    CheckFold { player: Player, value: bool },
    CallAny { player: Player, value: bool },
    TimerFire { epoch: u64, player: Player },
}

/// The room's state: its table and the turn-timer epoch machine.
pub struct RoomCore {
    pub table: Table,
    /// The epoch of the most recently armed timer.
    pub timer_epoch: u64,
    /// Whether that timer is still live.
    pub timer_armed: bool,
}

/// True when the table holds a hand that is still being played.
pub open spec fn hand_in_progress(t: Table) -> bool {
    t.game is Some && !t.game->0.is_over_spec()
}

/// True when a fire with this epoch would be honoured.
pub open spec fn timer_accepts(c: RoomCore, epoch: u64) -> bool {
    c.timer_armed && c.timer_epoch == epoch
}

/// An outcome that asks the surrounding task for nothing.
pub open spec fn no_actions(o: RoomOutcome) -> bool {
    &&& o.broadcasts@.len() == 0
    &&& o.deals@.len() == 0
    &&& o.timer == TimerAction::Keep
    &&& o.config is None
}

/// The timer state is unchanged between two room states.
pub open spec fn same_timer(a: RoomCore, b: RoomCore) -> bool {
    &&& b.timer_epoch == a.timer_epoch
    &&& b.timer_armed == a.timer_armed
}

/// Whether a table is ready to deal the next hand.
pub open spec fn can_start(t: Table) -> bool {
    !hand_in_progress(t) && eligible_seq(t).len() >= t.config.min_players
}

/// What trying to start the next hand guarantees. A hand starts exactly
/// when none is in progress and enough seats are eligible; it is dealt to
/// the eligible seats with the dealer moved one seat, announced with one
/// new-game broadcast, each seat is dealt its hole cards privately, and
/// the timer is armed under a fresh epoch for the seat to act.
pub open spec fn start_attempt_post(
    c1: RoomCore,
    c2: RoomCore,
    bcasts: Seq<PokerMessage>,
    deals: Seq<(PlayerId, PokerMessage)>,
    timer: TimerAction,
) -> bool {
    let t1 = c1.table;
    let elig = eligible_seq(t1);
    &&& (!can_start(t1) ==> c2 == c1 && bcasts.len() == 0 && deals.len() == 0 && timer
        == TimerAction::Keep)
    &&& (can_start(t1) ==> c2.table.game is Some && {
        let g = c2.table.game->0;
        &&& g.wf()
        &&& !g.is_over_spec()
        &&& g.players@ == elig
        &&& g.id@ == t1.config.id@
        &&& g.small_blind == t1.config.small_blind
        &&& g.big_blind == t1.config.big_blind
        &&& g.dealer_idx as int == next_dealer_spec(t1, elig.len() as int)
        &&& c2.table.config == t1.config
        &&& c2.table.players == t1.players
        &&& bcasts.len() == 1
        &&& new_game_msg_of(bcasts[0], t1.config.id, g)
        &&& deals.len() == g.n()
        &&& (forall|i: int|
            0 <= i < g.n() ==> (#[trigger] deals[i]).0@ == g.players@[i].info.id@ && deals[i].1
                == PokerMessage::deal_hand_msg(t1.config.id, g.hands@[i]))
        &&& timer == TimerAction::Arm(g.players@[g.actor()].info, c2.timer_epoch)
        &&& c2.timer_armed
        &&& c2.timer_epoch != c1.timer_epoch
    })
}

impl PokerMessage {
    /// The private deal message for one pair of hole cards, as a value.
    pub open spec fn deal_hand_msg(room_id: RoomId, hand: (u8, u8)) -> PokerMessage {
        PokerMessage::Server(
            crate::messages::Either::Room(
                crate::messages::RoomMessage {
                    room_id,
                    payload: crate::messages::ServerRoomPayload::DealHand(hand.0, hand.1),
                },
            ),
        )
    }

    /// The chat broadcast for a line in a room, as a value.
    pub open spec fn chat_msg(room_id: RoomId, from: PlayerId, message: String) -> PokerMessage {
        PokerMessage::Server(
            crate::messages::Either::Room(
                crate::messages::RoomMessage {
                    room_id,
                    payload: crate::messages::ServerRoomPayload::Chat { from, message },
                },
            ),
        )
    }

    /// The seating announcement for a room, as a value.
    pub open spec fn sit_msg(room_id: RoomId, player: Player, index: usize) -> PokerMessage {
        PokerMessage::Server(
            crate::messages::Either::Room(
                crate::messages::RoomMessage {
                    room_id,
                    payload: crate::messages::ServerRoomPayload::SitTable { player, index },
                },
            ),
        )
    }
}

/// A fresh seat for a newly sat player.
pub open spec fn new_seat(player: Player) -> TablePlayer {
    TablePlayer {
        info: player,
        wait_for_big_blind: true,
        sit_out_next_hand: false,
        sit_out_next_big_blind: false,
    }
}

/// What handling a chat line guarantees: nothing changes and the line is
/// echoed to the room as one broadcast.
pub open spec fn chat_post(
    c1: RoomCore,
    c2: RoomCore,
    from: PlayerId,
    message: String,
    o: RoomOutcome,
) -> bool {
    &&& c2 == c1
    &&& o.reply == Ok::<(), PokerError>(())
    &&& o.config is None
    &&& o.deals@.len() == 0
    &&& o.timer == TimerAction::Keep
    &&& o.broadcasts@.len() == 1
    &&& o.broadcasts@[0] == PokerMessage::chat_msg(c1.table.config.id, from, message)
}

/// What handling a sit request guarantees: a full table or a repeated id
/// is refused untouched; otherwise the player takes the next seat, the
/// seating is announced, and a hand starts when it can.
pub open spec fn sit_post(c1: RoomCore, c2: RoomCore, player: Player, o: RoomOutcome) -> bool {
    &&& o.config is None
    &&& match o.reply {
        Ok(()) => {
            let cm = o.mid_room@;
            &&& c1.table.players@.len() < c1.table.config.max_players
            &&& (forall|k: int|
                0 <= k < c1.table.players@.len() ==> (#[trigger] c1.table.players@[k]).info.id@
                    != player.id@)
            &&& o.broadcasts@.len() >= 1
            &&& o.broadcasts@[0] == PokerMessage::sit_msg(
                c1.table.config.id,
                player,
                c1.table.players@.len() as usize,
            )
            &&& cm.table.config == c1.table.config
            &&& cm.table.players@ == c1.table.players@.push(new_seat(player))
            &&& cm.table.game == c1.table.game
            &&& same_timer(c1, cm)
            &&& start_attempt_post(cm, c2, o.broadcasts@.skip(1), o.deals@, o.timer)
        },
        Err(PokerError::TableFull) => c1.table.players@.len() >= c1.table.config.max_players && c2
            == c1 && no_actions(o),
        Err(PokerError::AlreadySeated) => (exists|k: int|
            0 <= k < c1.table.players@.len() && (#[trigger] c1.table.players@[k]).info.id@
                == player.id@) && c2 == c1 && no_actions(o),
        Err(_) => false,
    }
}

/// How the room settles after the hand advanced to the state in
/// `o.hand_after`: the new state is broadcast; an open hand re-arms the
/// timer for the seat to act, a finished hand starts the next one when it
/// can and cancels the timer when it cannot.
pub open spec fn played_out_post(c1: RoomCore, c2: RoomCore, o: RoomOutcome) -> bool {
    let g2 = o.hand_after@;
    &&& o.broadcasts@.len() >= 1
    &&& game_update_msg_of(o.broadcasts@[0], c1.table.config.id, g2)
    &&& if !g2.is_over_spec() {
        &&& c2.table.game == Some(g2)
        &&& c2.table.config == c1.table.config
        &&& c2.table.players == c1.table.players
        &&& o.broadcasts@.len() == 1
        &&& o.deals@.len() == 0
        &&& o.timer == TimerAction::Arm(g2.players@[g2.actor()].info, c2.timer_epoch)
        &&& c2.timer_armed
        &&& c2.timer_epoch != c1.timer_epoch
    } else {
        let cm = o.mid_room@;
        &&& cm.table.config == c1.table.config
        &&& cm.table.players == c1.table.players
        &&& cm.table.game == Some(g2)
        &&& same_timer(c1, cm)
        &&& if can_start(cm.table) {
            start_attempt_post(cm, c2, o.broadcasts@.skip(1), o.deals@, o.timer)
        } else {
            &&& c2.table == cm.table
            &&& !c2.timer_armed
            &&& c2.timer_epoch == c1.timer_epoch
            &&& o.broadcasts@.len() == 1
            &&& o.deals@.len() == 0
            &&& o.timer == TimerAction::Cancel
        }
    }
}

/// What handling a bet guarantees: it is refused untouched without a
/// running hand, out of turn, or with an amount the engine rejects; an
/// accepted bet drives the hand, is broadcast as one game update, and the
/// room settles as `played_out_post` says.
pub open spec fn bet_post(
    c1: RoomCore,
    c2: RoomCore,
    player: Player,
    chips: ChipInt,
    o: RoomOutcome,
) -> bool {
    &&& o.config is None
    &&& match o.reply {
        Err(PokerError::GameInactive) => !hand_in_progress(c1.table) && c2 == c1 && no_actions(o),
        Err(PokerError::NotYourTurn) => hand_in_progress(c1.table) && {
            let g = c1.table.game->0;
            g.players@[g.actor()].info.id@ != player.id@ && c2 == c1 && no_actions(o)
        },
        Err(PokerError::InvalidBet) => hand_in_progress(c1.table) && {
            let g = c1.table.game->0;
            &&& g.players@[g.actor()].info.id@ == player.id@
            &&& !bet_valid_spec(g, chips as int)
            &&& c2 == c1
            &&& no_actions(o)
        },
        Ok(()) => hand_in_progress(c1.table) && {
            let g = c1.table.game->0;
            &&& g.players@[g.actor()].info.id@ == player.id@
            &&& bet_valid_spec(g, chips as int)
            &&& bet_step_post(g, o.hand_mid@, chips as int, false)
            &&& advance_post(o.hand_mid@, o.hand_after@)
            &&& played_out_post(c1, c2, o)
        },
        Err(_) => false,
    }
}

/// What handling a fold guarantees, with the same refusals and follow-up
/// as a bet.
pub open spec fn fold_post(c1: RoomCore, c2: RoomCore, player: Player, o: RoomOutcome) -> bool {
    &&& o.config is None
    &&& match o.reply {
        Err(PokerError::GameInactive) => !hand_in_progress(c1.table) && c2 == c1 && no_actions(o),
        Err(PokerError::NotYourTurn) => hand_in_progress(c1.table) && {
            let g = c1.table.game->0;
            g.players@[g.actor()].info.id@ != player.id@ && c2 == c1 && no_actions(o)
        },
        Ok(()) => hand_in_progress(c1.table) && {
            let g = c1.table.game->0;
            &&& g.players@[g.actor()].info.id@ == player.id@
            &&& fold_step_post(g, o.hand_mid@)
            &&& advance_post(o.hand_mid@, o.hand_after@)
            &&& played_out_post(c1, c2, o)
        },
        Err(_) => false,
    }
}

/// What handling a timer fire guarantees: a stale or cancelled timer does
/// nothing; the live timer is consumed and folds the player it captured,
/// exactly as a fold sent by that player, and the room never honours that
/// epoch again.
pub open spec fn fire_post(
    c1: RoomCore,
    c2: RoomCore,
    epoch: u64,
    player: Player,
    o: RoomOutcome,
) -> bool {
    &&& (!timer_accepts(c1, epoch) ==> c2 == c1 && no_actions(o))
    &&& (timer_accepts(c1, epoch) ==> !timer_accepts(c2, epoch) && fold_post(
        RoomCore { timer_armed: false, ..c1 },
        c2,
        player,
        o,
    ))
}

/// What every per-seat flag command has in common: nothing is broadcast,
/// the timer and the configuration stand, and an id that is not seated is
/// refused with the room unchanged.
pub open spec fn flag_frame(c1: RoomCore, c2: RoomCore, o: RoomOutcome) -> bool {
    &&& same_timer(c1, c2)
    &&& no_actions(o)
    &&& c2.table.config == c1.table.config
}

/// True when some seat of the table carries this player's id.
pub open spec fn seated(t: Table, player: Player) -> bool {
    exists|k: int| 0 <= k < t.players@.len() && (#[trigger] t.players@[k]).info.id@ == player.id@
}

/// What setting the wait-for-big-blind flag guarantees: the named seat's
/// flag becomes `value` and nothing else moves; an unseated id is refused
/// unchanged.
pub open spec fn wait_for_big_blind_post(
    c1: RoomCore,
    c2: RoomCore,
    player: Player,
    value: bool,
    o: RoomOutcome,
) -> bool {
    &&& flag_frame(c1, c2, o)
    &&& c2.table.game == c1.table.game
    &&& match o.reply {
        Ok(()) => exists|i: int|
            0 <= i < c1.table.players@.len() && (#[trigger] c1.table.players@[i]).info.id@
                == player.id@ && c2.table.players@ == c1.table.players@.update(
                i,
                TablePlayer { wait_for_big_blind: value, ..c1.table.players@[i] },
            ),
        Err(PokerError::PlayerNotFound) => !seated(c1.table, player) && c2 == c1,
        Err(_) => false,
    }
}

/// What setting the sit-out-next-hand flag guarantees, as above.
pub open spec fn sit_out_next_hand_post(
    c1: RoomCore,
    c2: RoomCore,
    player: Player,
    value: bool,
    o: RoomOutcome,
) -> bool {
    &&& flag_frame(c1, c2, o)
    &&& c2.table.game == c1.table.game
    &&& match o.reply {
        Ok(()) => exists|i: int|
            0 <= i < c1.table.players@.len() && (#[trigger] c1.table.players@[i]).info.id@
                == player.id@ && c2.table.players@ == c1.table.players@.update(
                i,
                TablePlayer { sit_out_next_hand: value, ..c1.table.players@[i] },
            ),
        Err(PokerError::PlayerNotFound) => !seated(c1.table, player) && c2 == c1,
        Err(_) => false,
    }
}

/// What setting the sit-out-next-big-blind flag guarantees, as above.
pub open spec fn sit_out_next_big_blind_post(
    c1: RoomCore,
    c2: RoomCore,
    player: Player,
    value: bool,
    o: RoomOutcome,
) -> bool {
    &&& flag_frame(c1, c2, o)
    &&& c2.table.game == c1.table.game
    &&& match o.reply {
        Ok(()) => exists|i: int|
            0 <= i < c1.table.players@.len() && (#[trigger] c1.table.players@[i]).info.id@
                == player.id@ && c2.table.players@ == c1.table.players@.update(
                i,
                TablePlayer { sit_out_next_big_blind: value, ..c1.table.players@[i] },
            ),
        Err(PokerError::PlayerNotFound) => !seated(c1.table, player) && c2 == c1,
        Err(_) => false,
    }
}

/// True when some seat of the running hand carries this player's id.
pub open spec fn dealt_in(g: Game, player: Player) -> bool {
    exists|k: int| 0 <= k < g.players@.len() && (#[trigger] g.players@[k]).info.id@ == player.id@
}

/// What pre-committing a seat to check-or-fold guarantees: it needs a
/// running hand, the named seat's flag becomes `value` and nothing else of
/// the hand moves; without a running hand, or for an id not dealt in, the
/// room is unchanged.
pub open spec fn check_fold_post(
    c1: RoomCore,
    c2: RoomCore,
    player: Player,
    value: bool,
    o: RoomOutcome,
) -> bool {
    &&& flag_frame(c1, c2, o)
    &&& c2.table.players == c1.table.players
    &&& match o.reply {
        Ok(()) => hand_in_progress(c1.table) && c2.table.game is Some && same_except_players(
            c1.table.game->0,
            c2.table.game->0,
        ) && exists|i: int|
            0 <= i < c1.table.game->0.players@.len() && (#[trigger] c1.table.game
                ->0.players@[i]).info.id@ == player.id@ && c2.table.game->0.players@
                == c1.table.game->0.players@.update(
                i,
                GamePlayer { check_fold: value, ..c1.table.game->0.players@[i] },
            ),
        Err(PokerError::GameInactive) => !hand_in_progress(c1.table) && c2 == c1,
        Err(PokerError::PlayerNotFound) => hand_in_progress(c1.table) && !dealt_in(
            c1.table.game->0,
            player,
        ) && c2 == c1,
        Err(_) => false,
    }
}

/// What pre-committing a seat to call-any guarantees, as above.
pub open spec fn call_any_post(
    c1: RoomCore,
    c2: RoomCore,
    player: Player,
    value: bool,
    o: RoomOutcome,
) -> bool {
    &&& flag_frame(c1, c2, o)
    &&& c2.table.players == c1.table.players
    &&& match o.reply {
        Ok(()) => hand_in_progress(c1.table) && c2.table.game is Some && same_except_players(
            c1.table.game->0,
            c2.table.game->0,
        ) && exists|i: int|
            0 <= i < c1.table.game->0.players@.len() && (#[trigger] c1.table.game
                ->0.players@[i]).info.id@ == player.id@ && c2.table.game->0.players@
                == c1.table.game->0.players@.update(
                i,
                GamePlayer { call_any: value, ..c1.table.game->0.players@[i] },
            ),
        Err(PokerError::GameInactive) => !hand_in_progress(c1.table) && c2 == c1,
        Err(PokerError::PlayerNotFound) => hand_in_progress(c1.table) && !dealt_in(
            c1.table.game->0,
            player,
        ) && c2 == c1,
        Err(_) => false,
    }
}

impl RoomCore {
    /// A room owning this table, with no timer armed yet.
    pub fn new(table: Table) -> (r: RoomCore)
        ensures
            r.table == table,
            !r.timer_armed,
    {
        RoomCore { table, timer_epoch: 0, timer_armed: false }
    }

    /// A copy of the room's id.
    fn room_id(&self) -> (r: RoomId)
        ensures
            r == self.table.config.id,
    {
        self.table.config.id.clone()
    }

    /// An outcome that carries a reply and asks for nothing else.
    fn quiet(reply: Result<(), PokerError>) -> (o: RoomOutcome)
        ensures
            no_actions(o),
            o.reply == reply,
    {
        RoomOutcome {
            reply,
            config: None,
            broadcasts: Vec::new(),
            deals: Vec::new(),
            timer: TimerAction::Keep,
            mid_room: Ghost(vstd::pervasive::arbitrary()),
            hand_mid: Ghost(vstd::pervasive::arbitrary()),
            hand_after: Ghost(vstd::pervasive::arbitrary()),
        }
    }

    /// Arms the timer under a fresh epoch.
    fn arm_timer(&mut self) -> (e: u64)
        ensures
            final(self).table == old(self).table,
            final(self).timer_armed,
            final(self).timer_epoch == e,
            e != old(self).timer_epoch,
    {
        let e = if self.timer_epoch < u64::MAX {
            self.timer_epoch + 1
        } else {
            0
        };
        self.timer_epoch = e;
        self.timer_armed = true;
        e
    }

    /// Tries to start the next hand; most attempts fail quietly because a
    /// hand is running or too few seats are eligible.
    fn try_start_new_game(&mut self) -> (r: (
        Vec<PokerMessage>,
        Vec<(PlayerId, PokerMessage)>,
        TimerAction,
    ))
        requires
            old(self).table.wf(),
        ensures
            final(self).table.wf(),
            start_attempt_post(*old(self), *final(self), r.0@, r.1@, r.2),
            !can_start(old(self).table) ==> same_timer(*old(self), *final(self)),
    {
        let in_progress = match &self.table.game {
            Some(g) => !g.is_over(),
            None => false,
        };
        if in_progress {
            return (Vec::new(), Vec::new(), TimerAction::Keep);
        }
        match self.table.start_new_game() {
            Err(_) => (Vec::new(), Vec::new(), TimerAction::Keep),
            Ok(()) => {
                let room_id = self.room_id();
                let epoch = self.arm_timer();
                match &self.table.game {
                    None => {
                        proof {
                            assert(false);
                        }
                        (Vec::new(), Vec::new(), TimerAction::Keep)
                    },
                    Some(g) => {
                        let mut bcasts: Vec<PokerMessage> = Vec::new();
                        bcasts.push(PokerMessage::new_game(room_id, g));
                        let pairs = g.players_hands();
                        let mut deals: Vec<(PlayerId, PokerMessage)> = Vec::new();
                        let n = pairs.len();
                        let mut i: usize = 0;
                        while i < n
                            invariant
                                i <= n == pairs@.len(),
                                g.lens_ok(),
                                n == g.n(),
                                forall|k: int|
                                    0 <= k < n ==> #[trigger] pairs@[k] == (
                                        g.players@[k].info,
                                        g.hands@[k],
                                    ),
                                deals@.len() == i,
                                forall|k: int|
                                    0 <= k < i ==> (#[trigger] deals@[k]).0@
                                        == g.players@[k].info.id@ && deals@[k].1
                                        == PokerMessage::deal_hand_msg(
                                        self.table.config.id,
                                        g.hands@[k],
                                    ),
                            decreases n - i,
                        {
                            let pid = pairs[i].0.id.clone();
                            let dm = PokerMessage::deal_hand(self.room_id(), pairs[i].1);
                            deals.push((pid, dm));
                            i = i + 1;
                        }
                        let to_act = g.current_player();
                        let captured = Player {
                            id: to_act.id.clone(),
                            username: to_act.username.clone(),
                        };
                        (bcasts, deals, TimerAction::Arm(captured, epoch))
                    },
                }
            },
        }
    }

    /// A copy of the table's configuration, for a configuration request.
    pub fn get_table_config(&self) -> (c: TableConfig)
        ensures
            c == self.table.config,
    {
        TableConfig {
            id: self.table.config.id.clone(),
            name: self.table.config.name.clone(),
            min_players: self.table.config.min_players,
            max_players: self.table.config.max_players,
            small_blind: self.table.config.small_blind,
            big_blind: self.table.config.big_blind,
        }
    }

    /// Echoes a chat line to the room.
    fn handle_chat(&mut self, from: PlayerId, message: String) -> (o: RoomOutcome)
        requires
            old(self).table.wf(),
        ensures
            chat_post(*old(self), *final(self), from, message, o),
    {
        let room_id = self.room_id();
        let mut bcasts: Vec<PokerMessage> = Vec::new();
        bcasts.push(PokerMessage::chat_broadcast(room_id, from, message));
        RoomOutcome {
            reply: Ok(()),
            config: None,
            broadcasts: bcasts,
            deals: Vec::new(),
            timer: TimerAction::Keep,
            mid_room: Ghost(vstd::pervasive::arbitrary()),
            hand_mid: Ghost(vstd::pervasive::arbitrary()),
            hand_after: Ghost(vstd::pervasive::arbitrary()),
        }
    }

    /// Seats a player and starts a hand when the table can.
    fn handle_sit(&mut self, player: Player) -> (o: RoomOutcome)
        requires
            old(self).table.wf(),
        ensures
            final(self).table.wf(),
            sit_post(*old(self), *final(self), player, o),
    {
        if self.table.num_players() >= self.table.max_players() {
            return RoomCore::quiet(Err(PokerError::TableFull));
        }
        let n = self.table.players.len();
        let mut k: usize = 0;
        while k < n
            invariant
                *self == *old(self),
                old(self).table.wf(),
                k <= n == self.table.players@.len(),
                forall|j: int|
                    0 <= j < k ==> (#[trigger] self.table.players@[j]).info.id@ != player.id@,
            decreases n - k,
        {
            if self.table.players[k].info.id == player.id {
                return RoomCore::quiet(Err(PokerError::AlreadySeated));
            }
            k = k + 1;
        }
        let room_id = self.room_id();
        let index = self.table.players.len();
        let copy = Player { id: player.id.clone(), username: player.username.clone() };
        let mut bcasts: Vec<PokerMessage> = Vec::new();
        bcasts.push(PokerMessage::sit_table_broadcast(room_id, player, index));
        let seat = TablePlayer {
            info: copy,
            wait_for_big_blind: true,
            sit_out_next_hand: false,
            sit_out_next_big_blind: false,
        };
        self.table.players.push(seat);
        let ghost cm = *self;
        let (mut more, deals, timer) = self.try_start_new_game();
        let ghost more0 = more@;
        bcasts.append(&mut more);
        proof {
            assert(bcasts@.skip(1) =~= more0);
            assert(cm.table.players@ =~= old(self).table.players@.push(new_seat(player)));
        }
        RoomOutcome {
            reply: Ok(()),
            config: None,
            broadcasts: bcasts,
            deals,
            timer,
            mid_room: Ghost(cm),
            hand_mid: Ghost(vstd::pervasive::arbitrary()),
            hand_after: Ghost(vstd::pervasive::arbitrary()),
        }
    }

    /// Applies one bet by this player to the running hand.
    fn handle_bet(&mut self, player: Player, chips: ChipInt) -> (o: RoomOutcome)
        requires
            old(self).table.wf(),
        ensures
            final(self).table.wf(),
            bet_post(*old(self), *final(self), player, chips, o),
    {
        let gopt = self.table.game.take();
        match gopt {
            None => {
                self.table.game = None;
                proof {
                    assert(*self =~= *old(self));
                }
                RoomCore::quiet(Err(PokerError::GameInactive))
            },
            Some(mut g) => {
                if g.is_over() {
                    self.table.game = Some(g);
                    proof {
                        assert(*self =~= *old(self));
                    }
                    return RoomCore::quiet(Err(PokerError::GameInactive));
                }
                if !g.is_players_turn(&player) {
                    self.table.game = Some(g);
                    proof {
                        assert(*self =~= *old(self));
                    }
                    return RoomCore::quiet(Err(PokerError::NotYourTurn));
                }
                let ghost g0 = g;
                match g.bet(chips) {
                    Err(e) => {
                        self.table.game = Some(g);
                        proof {
                            assert(*self =~= *old(self));
                        }
                        RoomCore::quiet(Err(e))
                    },
                    Ok(_) => {
                        let ghost g2 = g;
                        let ghost mid = choose|m: Game|
                            #[trigger] bet_step_post(g0, m, chips as int, false) && advance_post(
                                m,
                                g2,
                            );
                        let room_id = self.room_id();
                        let mut bcasts: Vec<PokerMessage> = Vec::new();
                        bcasts.push(PokerMessage::game_update(room_id, &g));
                        let over = g.is_over();
                        self.table.game = Some(g);
                        if !over {
                            let epoch = self.arm_timer();
                            let captured = match &self.table.game {
                                Some(gr) => {
                                    let p = gr.current_player();
                                    Player { id: p.id.clone(), username: p.username.clone() }
                                },
                                None => {
                                    proof {
                                        assert(false);
                                    }
                                    player
                                },
                            };
                            RoomOutcome {
                                reply: Ok(()),
                                config: None,
                                broadcasts: bcasts,
                                deals: Vec::new(),
                                timer: TimerAction::Arm(captured, epoch),
                                mid_room: Ghost(vstd::pervasive::arbitrary()),
                                hand_mid: Ghost(mid),
                                hand_after: Ghost(g2),
                            }
                        } else {
                            let ghost cm = *self;
                            let (mut more, deals, timer) = self.try_start_new_game();
                            let ghost more0 = more@;
                            bcasts.append(&mut more);
                            proof {
                                assert(bcasts@.skip(1) =~= more0);
                            }
                            if matches!(timer, TimerAction::Keep) {
                                self.timer_armed = false;
                                RoomOutcome {
                                    reply: Ok(()),
                                    config: None,
                                    broadcasts: bcasts,
                                    deals,
                                    timer: TimerAction::Cancel,
                                    mid_room: Ghost(cm),
                                    hand_mid: Ghost(mid),
                                    hand_after: Ghost(g2),
                                }
                            } else {
                                RoomOutcome {
                                    reply: Ok(()),
                                    config: None,
                                    broadcasts: bcasts,
                                    deals,
                                    timer,
                                    mid_room: Ghost(cm),
                                    hand_mid: Ghost(mid),
                                    hand_after: Ghost(g2),
                                }
                            }
                        }
                    },
                }
            },
        }
    }

    /// Applies one fold by this player to the running hand.
    fn handle_fold(&mut self, player: Player) -> (o: RoomOutcome)
        requires
            old(self).table.wf(),
        ensures
            final(self).table.wf(),
            fold_post(*old(self), *final(self), player, o),
    {
        let gopt = self.table.game.take();
        match gopt {
            None => {
                self.table.game = None;
                proof {
                    assert(*self =~= *old(self));
                }
                RoomCore::quiet(Err(PokerError::GameInactive))
            },
            Some(mut g) => {
                if g.is_over() {
                    self.table.game = Some(g);
                    proof {
                        assert(*self =~= *old(self));
                    }
                    return RoomCore::quiet(Err(PokerError::GameInactive));
                }
                if !g.is_players_turn(&player) {
                    self.table.game = Some(g);
                    proof {
                        assert(*self =~= *old(self));
                    }
                    return RoomCore::quiet(Err(PokerError::NotYourTurn));
                }
                let ghost g0 = g;
                g.fold();
                let ghost g2 = g;
                let ghost mid = choose|m: Game|
                    #[trigger] fold_step_post(g0, m) && advance_post(m, g2);
                let room_id = self.room_id();
                let mut bcasts: Vec<PokerMessage> = Vec::new();
                bcasts.push(PokerMessage::game_update(room_id, &g));
                let over = g.is_over();
                self.table.game = Some(g);
                if !over {
                    let epoch = self.arm_timer();
                    let captured = match &self.table.game {
                        Some(gr) => {
                            let p = gr.current_player();
                            Player { id: p.id.clone(), username: p.username.clone() }
                        },
                        None => {
                            proof {
                                assert(false);
                            }
                            player
                        },
                    };
                    RoomOutcome {
                        reply: Ok(()),
                        config: None,
                        broadcasts: bcasts,
                        deals: Vec::new(),
                        timer: TimerAction::Arm(captured, epoch),
                        mid_room: Ghost(vstd::pervasive::arbitrary()),
                        hand_mid: Ghost(mid),
                        hand_after: Ghost(g2),
                    }
                } else {
                    let ghost cm = *self;
                    let (mut more, deals, timer) = self.try_start_new_game();
                    let ghost more0 = more@;
                    bcasts.append(&mut more);
                    proof {
                        assert(bcasts@.skip(1) =~= more0);
                    }
                    if matches!(timer, TimerAction::Keep) {
                        self.timer_armed = false;
                        RoomOutcome {
                            reply: Ok(()),
                            config: None,
                            broadcasts: bcasts,
                            deals,
                            timer: TimerAction::Cancel,
                            mid_room: Ghost(cm),
                            hand_mid: Ghost(mid),
                            hand_after: Ghost(g2),
                        }
                    } else {
                        RoomOutcome {
                            reply: Ok(()),
                            config: None,
                            broadcasts: bcasts,
                            deals,
                            timer,
                            mid_room: Ghost(cm),
                            hand_mid: Ghost(mid),
                            hand_after: Ghost(g2),
                        }
                    }
                }
            },
        }
    }

    /// Handles a firing turn timer: only the live epoch folds the player
    /// the timer captured.
    fn handle_timer_fire(&mut self, epoch: u64, player: Player) -> (o: RoomOutcome)
        requires
            old(self).table.wf(),
        ensures
            final(self).table.wf(),
            fire_post(*old(self), *final(self), epoch, player, o),
    {
        if !(self.timer_armed && self.timer_epoch == epoch) {
            return RoomCore::quiet(Ok(()));
        }
        self.timer_armed = false;
        let ghost c_mid = *self;
        proof {
            assert(c_mid == RoomCore { timer_armed: false, ..*old(self) });
        }
        let o = self.handle_fold(player);
        o
    }

    /// Serialises one room operation: every mutation of the table goes
    /// through here, one event at a time.
    pub fn handle_message(&mut self, event: RoomEvent) -> (o: RoomOutcome)
        requires
            old(self).table.wf(),
        ensures
            final(self).table.wf(),
            match event {
                RoomEvent::GetTableConfig => *final(self) == *old(self) && o.config == Some(
                    old(self).table.config,
                ) && o.broadcasts@.len() == 0 && o.deals@.len() == 0 && o.timer
                    == TimerAction::Keep,
                RoomEvent::Chat { from, message } => chat_post(
                    *old(self),
                    *final(self),
                    from,
                    message,
                    o,
                ),
                RoomEvent::SitTable { player } => sit_post(*old(self), *final(self), player, o),
                RoomEvent::Bet { player, chips } => bet_post(
                    *old(self),
                    *final(self),
                    player,
                    chips,
                    o,
                ),
                RoomEvent::Fold { player } => fold_post(*old(self), *final(self), player, o),
                RoomEvent::SitOutNextHand { player, value } => sit_out_next_hand_post(
                    *old(self),
                    *final(self),
                    player,
                    value,
                    o,
                ),
                RoomEvent::SitOutNextBigBlind { player, value } => sit_out_next_big_blind_post(
                    *old(self),
                    *final(self),
                    player,
                    value,
                    o,
                ),
                RoomEvent::WaitForBigBlind { player, value } => wait_for_big_blind_post(
                    *old(self),
                    *final(self),
                    player,
                    value,
                    o,
                ),
                RoomEvent::CheckFold { player, value } => check_fold_post(
                    *old(self),
                    *final(self),
                    player,
                    value,
                    o,
                ),
                RoomEvent::CallAny { player, value } => call_any_post(
                    *old(self),
                    *final(self),
                    player,
                    value,
                    o,
                ),
                RoomEvent::TimerFire { epoch, player } => fire_post(
                    *old(self),
                    *final(self),
                    epoch,
                    player,
                    o,
                ),
            },
    {
        match event {
            RoomEvent::GetTableConfig => {
                let c = self.get_table_config();
                let mut o = RoomCore::quiet(Ok(()));
                o.config = Some(c);
                o
            },
            RoomEvent::Chat { from, message } => self.handle_chat(from, message),
            RoomEvent::SitTable { player } => self.handle_sit(player),
            RoomEvent::Bet { player, chips } => self.handle_bet(player, chips),
            RoomEvent::Fold { player } => self.handle_fold(player),
            RoomEvent::SitOutNextHand { player, value } => {
                let r = self.table.set_sit_out_next_hand(&player, value);
                RoomCore::quiet(r)
            },
            RoomEvent::SitOutNextBigBlind { player, value } => {
                let r = self.table.set_sit_out_next_big_blind(&player, value);
                RoomCore::quiet(r)
            },
            RoomEvent::WaitForBigBlind { player, value } => {
                let r = self.table.set_wait_for_big_blind(&player, value);
                RoomCore::quiet(r)
            },
            RoomEvent::CheckFold { player, value } => {
                let over = match &self.table.game {
                    Some(g) => g.is_over(),
                    None => false,
                };
                if over {
                    RoomCore::quiet(Err(PokerError::GameInactive))
                } else {
                    let r = self.table.set_check_fold(&player, value);
                    RoomCore::quiet(r)
                }
            },
            RoomEvent::CallAny { player, value } => {
                let over = match &self.table.game {
                    Some(g) => g.is_over(),
                    None => false,
                };
                if over {
                    RoomCore::quiet(Err(PokerError::GameInactive))
                } else {
                    let r = self.table.set_call_any(&player, value);
                    RoomCore::quiet(r)
                }
            },
            RoomEvent::TimerFire { epoch, player } => self.handle_timer_fire(epoch, player),
        }
    }
}

/// Only one epoch is live at a time: two fires the room would honour
/// carry the same epoch.
pub proof fn lemma_one_live_epoch(c: RoomCore, e1: u64, e2: u64)
    requires
        timer_accepts(c, e1),
        timer_accepts(c, e2),
    ensures
        e1 == e2,
{
}

/// A cancelled timer is never honoured, whatever epoch it carries.
pub proof fn lemma_cancelled_timer_never_fires(c: RoomCore, e: u64)
    requires
        !c.timer_armed,
    ensures
        !timer_accepts(c, e),
{
}

} // verus!
