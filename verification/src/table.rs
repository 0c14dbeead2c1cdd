//! The long-lived table: configuration, seating roster, per-seat flags,
//! and the policy for who is dealt into the next hand and who deals.
//!
//! A table owns at most one hand at a time, and only while that hand is
//! unfinished. The seats dealt into the next hand are the survivors of the
//! last hand in their seat order, followed by the players who joined since
//! it began, in join order, so returning players keep stable seat indices.

use vstd::prelude::*;

use crate::errors::PokerError;
use crate::game::{seat_after, Game};
use crate::player::{GamePlayer, Player, TablePlayer};
use crate::{ChipInt, DEFAULT_CHIPS};

verus! {

/// A table and its room share one id.
pub type TableId = String;

/// The immutable face of a table.
#[derive(Debug, Clone, PartialEq, Eq)]
pub struct TableConfig {
    pub id: TableId,
    pub name: String,
    pub min_players: usize,
    pub max_players: usize,
    pub small_blind: ChipInt,
    pub big_blind: ChipInt,
}

/// One table: its configuration, seated players, and the running hand.
#[derive(Debug)]
pub struct Table {
    pub config: TableConfig,
    pub players: Vec<TablePlayer>,
    pub game: Option<Game>,
}

impl TableConfig {
    /// Limits every table configuration respects: at least two players to
    /// deal, seats within what one deck can serve, and blinds strictly
    /// under the buy-in. The last bound is this engine's own: every seat
    /// starts each hand at exactly the buy-in, so a blind at or above it
    /// would eliminate the posting seat while the hand is still being
    /// dealt.
    pub open spec fn wf(&self) -> bool {
        &&& 2 <= self.min_players <= self.max_players <= 23
        &&& 1 <= self.small_blind <= self.big_blind < DEFAULT_CHIPS
    }
}

/// True when `id` is the id of some seat dealt into the hand `last`.
pub open spec fn id_dealt(last: Seq<GamePlayer>, id: Seq<char>) -> bool {
    exists|j: int| 0 <= j < last.len() && (#[trigger] last[j]).info.id@ == id
}

/// A freshly dealt seat for `p`: the player, with both auto-action flags
/// clear.
pub open spec fn fresh_seat(p: TablePlayer) -> GamePlayer {
    GamePlayer { info: p.info, check_fold: false, call_any: false }
}

/// The seated players that were dealt into `last` and do not sit the next
/// hand out, in seat order.
pub open spec fn survivors(players: Seq<TablePlayer>, last: Seq<GamePlayer>) -> Seq<GamePlayer>
    decreases players.len(),
{
    if players.len() == 0 {
        Seq::empty()
    } else {
        survivors(players.drop_last(), last) + (if id_dealt(last, players.last().info.id@)
            && !players.last().sit_out_next_hand {
            seq![fresh_seat(players.last())]
        } else {
            Seq::empty()
        })
    }
}

/// The seated players that were not dealt into `last` and do not sit the
/// next hand out, in join order.
pub open spec fn newcomers(players: Seq<TablePlayer>, last: Seq<GamePlayer>) -> Seq<GamePlayer>
    decreases players.len(),
{
    if players.len() == 0 {
        Seq::empty()
    } else {
        newcomers(players.drop_last(), last) + (if !id_dealt(last, players.last().info.id@)
            && !players.last().sit_out_next_hand {
            seq![fresh_seat(players.last())]
        } else {
            Seq::empty()
        })
    }
}

/// The seats dealt into the table's next hand: the seated players not
/// sitting the next hand out, survivors of the last hand first in seat
/// order, then the players who joined since it began, in join order.
pub open spec fn eligible_seq(t: Table) -> Seq<GamePlayer> {
    let last = match t.game {
        Some(g) => g.players@,
        None => Seq::<GamePlayer>::empty(),
    };
    survivors(t.players@, last) + newcomers(t.players@, last)
}

/// The dealer seat of the table's next hand: one seat past the last
/// hand's dealer, inside the new hand's seat count; the first seat when no
/// hand was dealt yet.
pub open spec fn next_dealer_spec(t: Table, eligible_len: int) -> int {
    match t.game {
        Some(g) => (g.dealer_idx + 1) % eligible_len,
        None => 0,
    }
}

impl Table {
    /// What every table maintains: a sane configuration, no more seats
    /// than the configuration allows, one seat per player id, and a hand
    /// only while it is unfinished.
    pub open spec fn wf(&self) -> bool {
        &&& self.config.wf()
        &&& self.players@.len() <= self.config.max_players
        &&& forall|i: int, j: int|
            0 <= i < j < self.players@.len() ==> (#[trigger] self.players@[i]).info.id@ != (
            #[trigger] self.players@[j]).info.id@
        &&& match self.game {
            Some(g) => g.wf(),
            None => true,
        }
    }

    /// A fresh table with the default limits and blinds and nobody seated.
    pub fn new(id: String, name: String) -> (t: Table)
        ensures
            t.wf(),
            t.config.id == id,
            t.config.name == name,
            t.config.min_players == 2,
            t.config.max_players == 9,
            t.config.small_blind == 1,
            t.config.big_blind == 2,
            t.players@.len() == 0,
            t.game is None,
    {
        Table {
            config: TableConfig {
                id,
                name,
                min_players: 2,
                max_players: 9,
                small_blind: 1,
                big_blind: 2,
            },
            players: Vec::new(),
            game: None,
        }
    }

    /// The table's id.
    pub fn id(&self) -> (r: &TableId)
        ensures
            r == &self.config.id,
    {
        &self.config.id
    }

    /// How many players are seated.
    pub fn num_players(&self) -> (r: usize)
        ensures
            r == self.players@.len(),
    {
        self.players.len()
    }

    /// The fewest players a hand needs.
    pub fn min_players(&self) -> (r: usize)
        ensures
            r == self.config.min_players,
    {
        self.config.min_players
    }

    /// The most players the table seats.
    pub fn max_players(&self) -> (r: usize)
        ensures
            r == self.config.max_players,
    {
        self.config.max_players
    }

    /// The big blind.
    pub fn big_blind(&self) -> (r: ChipInt)
        ensures
            r == self.config.big_blind,
    {
        self.config.big_blind
    }

    /// The small blind.
    pub fn small_blind(&self) -> (r: ChipInt)
        ensures
            r == self.config.small_blind,
    {
        self.config.small_blind
    }

    /// The running hand, while one is in progress.
    pub fn game(&self) -> (r: Option<&Game>)
        ensures
            match r {
                Some(g) => self.game == Some(*g),
                None => self.game is None,
            },
    {
        self.game.as_ref()
    }

    /// The player whose turn it is, while a hand is in progress.
    pub fn current_player(&self) -> (r: Option<&Player>)
        requires
            self.wf(),
        ensures
            match r {
                Some(p) => self.game matches Some(g) && *p == g.players@[g.actor()].info,
                None => self.game is None,
            },
    {
        match &self.game {
            Some(game) => Some(game.current_player()),
            None => None,
        }
    }

    /// Changes the table's blinds.
    pub fn set_blinds(&mut self, small_blind: ChipInt, big_blind: ChipInt)
        requires
            old(self).wf(),
            1 <= small_blind <= big_blind < DEFAULT_CHIPS,
        ensures
            final(self).wf(),
            final(self).config == (TableConfig {
                small_blind,
                big_blind,
                ..old(self).config
            }),
            final(self).players == old(self).players,
            final(self).game == old(self).game,
    {
        self.config.small_blind = small_blind;
        self.config.big_blind = big_blind;
    }

    /// The seat of the player with this id, if they are seated.
    fn find_seat(&self, player: &Player) -> (r: Option<usize>)
        ensures
            match r {
                Some(i) => i < self.players@.len() && self.players@[i as int].info.id@
                    == player.id@ && forall|k: int|
                    0 <= k < i ==> (#[trigger] self.players@[k]).info.id@ != player.id@,
                None => forall|k: int|
                    0 <= k < self.players@.len() ==> (#[trigger] self.players@[k]).info.id@
                        != player.id@,
            },
    {
        let n = self.players.len();
        let mut i: usize = 0;
        while i < n
            invariant
                i <= n == self.players@.len(),
                forall|k: int| 0 <= k < i ==> (#[trigger] self.players@[k]).info.id@ != player.id@,
            decreases n - i,
        {
            if self.players[i].info.id == player.id {
                return Some(i);
            }
            i = i + 1;
        }
        None
    }

    /// Sets whether this player waits for the big blind before playing.
    pub fn set_wait_for_big_blind(&mut self, player: &Player, value: bool) -> (r: Result<
        (),
        PokerError,
    >)
        requires
            old(self).wf(),
        ensures
            final(self).wf(),
            final(self).config == old(self).config,
            final(self).game == old(self).game,
            match r {
                Ok(()) => exists|i: int|
                    0 <= i < old(self).players@.len() && (#[trigger] old(
                        self,
                    ).players@[i]).info.id@ == player.id@ && final(self).players@ == old(
                        self,
                    ).players@.update(
                        i,
                        TablePlayer { wait_for_big_blind: value, ..old(self).players@[i] },
                    ),
                Err(e) => e == PokerError::PlayerNotFound && *final(self) == *old(self) && (forall|
                    k: int,
                |
                    0 <= k < old(self).players@.len() ==> (#[trigger] old(
                        self,
                    ).players@[k]).info.id@ != player.id@),
            },
    {
        match self.find_seat(player) {
            Some(i) => {
                let ghost t0 = *self;
                let info = Player {
                    id: self.players[i].info.id.clone(),
                    username: self.players[i].info.username.clone(),
                };
                let updated = TablePlayer {
                    info,
                    wait_for_big_blind: self.players[i].wait_for_big_blind,
                    sit_out_next_hand: self.players[i].sit_out_next_hand,
                    sit_out_next_big_blind: self.players[i].sit_out_next_big_blind,
                };
                let updated = TablePlayer { wait_for_big_blind: value, ..updated };
                self.players.set(i, updated);
                proof {
                    assert(self.players@ =~= t0.players@.update(
                        i as int,
                        TablePlayer { wait_for_big_blind: value, ..t0.players@[i as int] },
                    ));
                }
                Ok(())
            },
            None => Err(PokerError::PlayerNotFound),
        }
    }

    /// Sets whether this player sits the next hand out.
    pub fn set_sit_out_next_hand(&mut self, player: &Player, value: bool) -> (r: Result<
        (),
        PokerError,
    >)
        requires
            old(self).wf(),
        ensures
            final(self).wf(),
            final(self).config == old(self).config,
            final(self).game == old(self).game,
            match r {
                Ok(()) => exists|i: int|
                    0 <= i < old(self).players@.len() && (#[trigger] old(
                        self,
                    ).players@[i]).info.id@ == player.id@ && final(self).players@ == old(
                        self,
                    ).players@.update(
                        i,
                        TablePlayer { sit_out_next_hand: value, ..old(self).players@[i] },
                    ),
                Err(e) => e == PokerError::PlayerNotFound && *final(self) == *old(self) && (forall|
                    k: int,
                |
                    0 <= k < old(self).players@.len() ==> (#[trigger] old(
                        self,
                    ).players@[k]).info.id@ != player.id@),
            },
    {
        match self.find_seat(player) {
            Some(i) => {
                let ghost t0 = *self;
                let info = Player {
                    id: self.players[i].info.id.clone(),
                    username: self.players[i].info.username.clone(),
                };
                let updated = TablePlayer {
                    info,
                    wait_for_big_blind: self.players[i].wait_for_big_blind,
                    sit_out_next_hand: self.players[i].sit_out_next_hand,
                    sit_out_next_big_blind: self.players[i].sit_out_next_big_blind,
                };
                let updated = TablePlayer { sit_out_next_hand: value, ..updated };
                self.players.set(i, updated);
                proof {
                    assert(self.players@ =~= t0.players@.update(
                        i as int,
                        TablePlayer { sit_out_next_hand: value, ..t0.players@[i as int] },
                    ));
                }
                Ok(())
            },
            None => Err(PokerError::PlayerNotFound),
        }
    }

    /// Sets whether this player sits out from the next big blind on.
    pub fn set_sit_out_next_big_blind(&mut self, player: &Player, value: bool) -> (r: Result<
        (),
        PokerError,
    >)
        requires
            old(self).wf(),
        ensures
            final(self).wf(),
            final(self).config == old(self).config,
            final(self).game == old(self).game,
            match r {
                Ok(()) => exists|i: int|
                    0 <= i < old(self).players@.len() && (#[trigger] old(
                        self,
                    ).players@[i]).info.id@ == player.id@ && final(self).players@ == old(
                        self,
                    ).players@.update(
                        i,
                        TablePlayer { sit_out_next_big_blind: value, ..old(self).players@[i] },
                    ),
                Err(e) => e == PokerError::PlayerNotFound && *final(self) == *old(self) && (forall|
                    k: int,
                |
                    0 <= k < old(self).players@.len() ==> (#[trigger] old(
                        self,
                    ).players@[k]).info.id@ != player.id@),
            },
    {
        match self.find_seat(player) {
            Some(i) => {
                let ghost t0 = *self;
                let info = Player {
                    id: self.players[i].info.id.clone(),
                    username: self.players[i].info.username.clone(),
                };
                let updated = TablePlayer {
                    info,
                    wait_for_big_blind: self.players[i].wait_for_big_blind,
                    sit_out_next_hand: self.players[i].sit_out_next_hand,
                    sit_out_next_big_blind: self.players[i].sit_out_next_big_blind,
                };
                let updated = TablePlayer { sit_out_next_big_blind: value, ..updated };
                self.players.set(i, updated);
                proof {
                    assert(self.players@ =~= t0.players@.update(
                        i as int,
                        TablePlayer { sit_out_next_big_blind: value, ..t0.players@[i as int] },
                    ));
                }
                Ok(())
            },
            None => Err(PokerError::PlayerNotFound),
        }
    }
}

impl Default for Table {
    /// The table the process seeds at bootstrap.
    fn default() -> (t: Table)
        ensures
            t.wf(),
            t.config.id@ == "69420"@,
            t.config.name@ == "Pocket Rocket Dreams"@,
            t.config.min_players == 2,
            t.config.max_players == 9,
            t.config.small_blind == 1,
            t.config.big_blind == 2,
            t.players@.len() == 0,
            t.game is None,
    {
        Table::new("69420".to_string(), "Pocket Rocket Dreams".to_string())
    }
}

/// Two hands that agree on everything but their seat vector.
pub open spec fn same_except_players(a: Game, b: Game) -> bool {
    &&& b.id == a.id
    &&& b.dealer_idx == a.dealer_idx
    &&& b.small_blind == a.small_blind
    &&& b.big_blind == a.big_blind
    &&& b.stacks == a.stacks
    &&& b.player_active == a.player_active
    &&& b.hands == a.hands
    &&& b.board == a.board
    &&& b.deck == a.deck
    &&& b.total_pot == a.total_pot
    &&& b.round == a.round
    &&& b.round_data == a.round_data
}

/// Together the survivors and the newcomers never outnumber the seats.
pub proof fn lemma_eligible_len(players: Seq<TablePlayer>, last: Seq<GamePlayer>)
    ensures
        survivors(players, last).len() + newcomers(players, last).len() <= players.len(),
    decreases players.len(),
{
    if players.len() > 0 {
        lemma_eligible_len(players.drop_last(), last);
    }
}

/// Every seat dealt into the next hand starts without auto-action flags.
pub proof fn lemma_eligible_fresh(players: Seq<TablePlayer>, last: Seq<GamePlayer>)
    ensures
        crate::game::no_auto_flags(survivors(players, last)),
        crate::game::no_auto_flags(newcomers(players, last)),
    decreases players.len(),
{
    if players.len() > 0 {
        lemma_eligible_fresh(players.drop_last(), last);
    }
}

impl Table {
    /// The seat of the player with this id in a hand's seat list.
    fn find_game_seat(players: &Vec<GamePlayer>, player: &Player) -> (r: Option<usize>)
        ensures
            match r {
                Some(i) => i < players@.len() && players@[i as int].info.id@ == player.id@
                    && forall|k: int|
                    0 <= k < i ==> (#[trigger] players@[k]).info.id@ != player.id@,
                None => forall|k: int|
                    0 <= k < players@.len() ==> (#[trigger] players@[k]).info.id@ != player.id@,
            },
    {
        let n = players.len();
        let mut i: usize = 0;
        while i < n
            invariant
                i <= n == players@.len(),
                forall|k: int| 0 <= k < i ==> (#[trigger] players@[k]).info.id@ != player.id@,
            decreases n - i,
        {
            if players[i].info.id == player.id {
                return Some(i);
            }
            i = i + 1;
        }
        None
    }

    /// Pre-commits this player's next turn to a check or fold; needs a
    /// running hand.
    pub fn set_check_fold(&mut self, player: &Player, value: bool) -> (r: Result<(), PokerError>)
        requires
            old(self).wf(),
        ensures
            final(self).wf(),
            final(self).config == old(self).config,
            final(self).players == old(self).players,
            match r {
                Ok(()) => old(self).game is Some && final(self).game is Some
                    && same_except_players(old(self).game->0, final(self).game->0) && (exists|
                    i: int,
                |
                    0 <= i < old(self).game->0.players@.len() && (#[trigger] old(
                        self,
                    ).game->0.players@[i]).info.id@ == player.id@ && final(self).game->0.players@
                        == old(self).game->0.players@.update(
                        i,
                        GamePlayer { check_fold: value, ..old(self).game->0.players@[i] },
                    )),
                Err(PokerError::GameInactive) => old(self).game is None && *final(self) == *old(
                    self,
                ),
                Err(PokerError::PlayerNotFound) => *final(self) == *old(self) && old(
                    self,
                ).game is Some && (forall|k: int|
                    0 <= k < old(self).game->0.players@.len() ==> (#[trigger] old(
                        self,
                    ).game->0.players@[k]).info.id@ != player.id@),
                Err(_) => false,
            },
    {
        let gopt = self.game.take();
        match gopt {
            None => {
                self.game = None;
                Err(PokerError::GameInactive)
            },
            Some(mut g) => {
                let ghost g1 = g;
                match Table::find_game_seat(&g.players, player) {
                    Some(i) => {
                        let updated = GamePlayer {
                            info: Player {
                                id: g.players[i].info.id.clone(),
                                username: g.players[i].info.username.clone(),
                            },
                            check_fold: value,
                            call_any: g.players[i].call_any,
                        };
                        g.players.set(i, updated);
                        proof {
                            assert(g.players@ =~= g1.players@.update(
                                i as int,
                                GamePlayer { check_fold: value, ..g1.players@[i as int] },
                            ));
                        }
                        self.game = Some(g);
                        Ok(())
                    },
                    None => {
                        self.game = Some(g);
                        proof {
                            assert(*self =~= *old(self));
                        }
                        Err(PokerError::PlayerNotFound)
                    },
                }
            },
        }
    }

    /// Pre-commits this player to calling whatever bet stands on their
    /// next turns; needs a running hand.
    pub fn set_call_any(&mut self, player: &Player, value: bool) -> (r: Result<(), PokerError>)
        requires
            old(self).wf(),
        ensures
            final(self).wf(),
            final(self).config == old(self).config,
            final(self).players == old(self).players,
            match r {
                Ok(()) => old(self).game is Some && final(self).game is Some
                    && same_except_players(old(self).game->0, final(self).game->0) && (exists|
                    i: int,
                |
                    0 <= i < old(self).game->0.players@.len() && (#[trigger] old(
                        self,
                    ).game->0.players@[i]).info.id@ == player.id@ && final(self).game->0.players@
                        == old(self).game->0.players@.update(
                        i,
                        GamePlayer { call_any: value, ..old(self).game->0.players@[i] },
                    )),
                Err(PokerError::GameInactive) => old(self).game is None && *final(self) == *old(
                    self,
                ),
                Err(PokerError::PlayerNotFound) => *final(self) == *old(self) && old(
                    self,
                ).game is Some && (forall|k: int|
                    0 <= k < old(self).game->0.players@.len() ==> (#[trigger] old(
                        self,
                    ).game->0.players@[k]).info.id@ != player.id@),
                Err(_) => false,
            },
    {
        let gopt = self.game.take();
        match gopt {
            None => {
                self.game = None;
                Err(PokerError::GameInactive)
            },
            Some(mut g) => {
                let ghost g1 = g;
                match Table::find_game_seat(&g.players, player) {
                    Some(i) => {
                        let updated = GamePlayer {
                            info: Player {
                                id: g.players[i].info.id.clone(),
                                username: g.players[i].info.username.clone(),
                            },
                            check_fold: g.players[i].check_fold,
                            call_any: value,
                        };
                        g.players.set(i, updated);
                        proof {
                            assert(g.players@ =~= g1.players@.update(
                                i as int,
                                GamePlayer { call_any: value, ..g1.players@[i as int] },
                            ));
                        }
                        self.game = Some(g);
                        Ok(())
                    },
                    None => {
                        self.game = Some(g);
                        proof {
                            assert(*self =~= *old(self));
                        }
                        Err(PokerError::PlayerNotFound)
                    },
                }
            },
        }
    }

    /// Whether `id` belongs to one of the seats of `last`.
    fn id_dealt_exec(last: &Vec<GamePlayer>, id: &String) -> (r: bool)
        ensures
            r == id_dealt(last@, id@),
    {
        let n = last.len();
        let mut i: usize = 0;
        while i < n
            invariant
                i <= n == last@.len(),
                forall|k: int| 0 <= k < i ==> (#[trigger] last@[k]).info.id@ != id@,
            decreases n - i,
        {
            if last[i].info.id == *id {
                return true;
            }
            i = i + 1;
        }
        false
    }

    /// The seats dealt into the next hand: survivors of the last hand in
    /// seat order, then the players who joined since, in join order.
    fn get_players_for_next_game(&self) -> (r: Vec<GamePlayer>)
        ensures
            r@ == eligible_seq(*self),
    {
        let ghost last = if self.game is Some {
            self.game->0.players@
        } else {
            Seq::<GamePlayer>::empty()
        };
        let n = self.players.len();
        let mut eligible: Vec<GamePlayer> = Vec::new();
        let mut i: usize = 0;
        while i < n
            invariant
                i <= n == self.players@.len(),
                last == (match self.game {
                    Some(g) => g.players@,
                    None => Seq::<GamePlayer>::empty(),
                }),
                eligible@ == survivors(self.players@.subrange(0, i as int), last),
            decreases n - i,
        {
            let p = &self.players[i];
            let dealt = match &self.game {
                Some(g) => Table::id_dealt_exec(&g.players, &p.info.id),
                None => false,
            };
            proof {
                assert(self.players@.subrange(0, i as int + 1).drop_last()
                    =~= self.players@.subrange(0, i as int));
                assert(self.players@.subrange(0, i as int + 1).last() == self.players@[i as int]);
            }
            if dealt && !p.sit_out_next_hand {
                let seat = GamePlayer {
                    info: Player { id: p.info.id.clone(), username: p.info.username.clone() },
                    check_fold: false,
                    call_any: false,
                };
                eligible.push(seat);
            }
            i = i + 1;
        }
        proof {
            assert(self.players@.subrange(0, n as int) =~= self.players@);
        }
        let mut i: usize = 0;
        while i < n
            invariant
                i <= n == self.players@.len(),
                last == (match self.game {
                    Some(g) => g.players@,
                    None => Seq::<GamePlayer>::empty(),
                }),
                eligible@ == survivors(self.players@, last) + newcomers(
                    self.players@.subrange(0, i as int),
                    last,
                ),
            decreases n - i,
        {
            let p = &self.players[i];
            let dealt = match &self.game {
                Some(g) => Table::id_dealt_exec(&g.players, &p.info.id),
                None => false,
            };
            proof {
                assert(self.players@.subrange(0, i as int + 1).drop_last()
                    =~= self.players@.subrange(0, i as int));
                assert(self.players@.subrange(0, i as int + 1).last() == self.players@[i as int]);
            }
            if !dealt && !p.sit_out_next_hand {
                let seat = GamePlayer {
                    info: Player { id: p.info.id.clone(), username: p.info.username.clone() },
                    check_fold: false,
                    call_any: false,
                };
                eligible.push(seat);
            }
            i = i + 1;
        }
        proof {
            assert(self.players@.subrange(0, n as int) =~= self.players@);
        }
        eligible
    }

    /// Starts the next hand when enough players are eligible: the
    /// survivors and newcomers are dealt in, the dealer button moves one
    /// seat, and the blinds are posted.
    pub fn start_new_game(&mut self) -> (r: Result<(), PokerError>)
        requires
            old(self).wf(),
        ensures
            final(self).wf(),
            final(self).config == old(self).config,
            final(self).players == old(self).players,
            r is Ok <==> !crate::room::hand_in_progress(*old(self)) && eligible_seq(
                *old(self),
            ).len() >= old(self).config.min_players,
            r is Err ==> *final(self) == *old(self),
            r == Err::<(), PokerError>(PokerError::GameInProgress)
                <==> crate::room::hand_in_progress(*old(self)),
            r is Err && !crate::room::hand_in_progress(*old(self)) ==> r == Err::<(),
                PokerError,
            >(PokerError::NotEnoughPlayers),
            r is Ok ==> final(self).game is Some && ({
                let g = final(self).game->0;
                let elig = eligible_seq(*old(self));
                &&& g.wf()
                &&& !g.is_over_spec()
                &&& g.players@ == elig
                &&& crate::game::no_auto_flags(g.players@)
                &&& g.id == old(self).config.id
                &&& g.small_blind == old(self).config.small_blind
                &&& g.big_blind == old(self).config.big_blind
                &&& g.dealer_idx as int == next_dealer_spec(*old(self), elig.len() as int)
                &&& g.round == crate::game::Round::Preflop
                &&& g.total_pot == old(self).config.small_blind + old(self).config.big_blind
                &&& g.round_data.bet == old(self).config.big_blind
                &&& g.round_data.min_raise == old(self).config.big_blind
                &&& g.round_data.to_act_idx as int == seat_after(
                    seat_after(seat_after(g.dealer_idx as int, g.n()), g.n()),
                    g.n(),
                )
            }),
    {
        let in_progress = match &self.game {
            Some(g) => !g.is_over(),
            None => false,
        };
        if in_progress {
            return Err(PokerError::GameInProgress);
        }
        let eligible = self.get_players_for_next_game();
        proof {
            lemma_eligible_fresh(
                self.players@,
                if self.game is Some {
                    self.game->0.players@
                } else {
                    Seq::<GamePlayer>::empty()
                },
            );
            lemma_eligible_len(
                self.players@,
                if self.game is Some {
                    self.game->0.players@
                } else {
                    Seq::<GamePlayer>::empty()
                },
            );
        }
        if eligible.len() < self.config.min_players {
            return Err(PokerError::NotEnoughPlayers);
        }
        let dealer_idx = match &self.game {
            Some(g) => (g.dealer_idx + 1) % eligible.len(),
            None => 0,
        };
        let id = self.config.id.clone();
        let game = Game::new(
            id,
            eligible,
            dealer_idx,
            self.config.small_blind,
            self.config.big_blind,
        );
        self.game = Some(game);
        Ok(())
    }
}

} // verus!
