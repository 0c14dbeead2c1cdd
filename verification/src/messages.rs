//! The wire message taxonomy: one envelope for everything the server
//! consumes and emits, split into client-originated and server-originated
//! arms, each with a lobby side and a room side.
//!
//! The constructors pin each message's shape exactly; the projection of a
//! running hand into its public state is verified against the hand's own
//! invariants, so every game update shows a seat to act that is really in
//! the round, a call target equal to the table bet, and a pot that equals
//! the chips committed.

use vstd::prelude::*;

use crate::game::Game;
use crate::player::Player;
use crate::table::TableConfig;
use crate::{ChipInt, PlayerId, RoomId};

verus! {

/// A message aimed at the lobby or at one room.
#[derive(Debug, Clone, PartialEq, Eq)]
pub enum Either<C, S> {
    Lobby(C),
    Room(S),
}

/// A room-scoped message: the room's id and the payload.
#[derive(Debug, Clone, PartialEq, Eq)]
pub struct RoomMessage<RoomPayload> {
    pub room_id: RoomId,
    pub payload: RoomPayload,
}

/// What a client can ask the lobby.
#[derive(Debug, Clone, PartialEq, Eq)]
pub enum ClientLobby {
    GetTables,
}

/// A play a client makes in a running hand.
#[derive(Debug, Clone, PartialEq, Eq)]
pub enum PlayerEvent {
    Bet(ChipInt),
    Fold,
}

/// What a client can ask one room.
#[derive(Debug, Clone, PartialEq, Eq)]
pub enum ClientRoomPayload {
    Subscribe,
    Chat(String),
    SitTable { chips: ChipInt },
    PlayerAction(PlayerEvent),
    SitOutNextHand(bool),
    SitOutNextBigBlind(bool),
    WaitForBigBlind(bool),
    CheckFold(bool),
    CallAny(bool),
}

/// What the server sends on the lobby side.
#[derive(Debug, Clone, PartialEq, Eq)]
pub enum ServerLobby {
    TableList(Vec<TableConfig>),
    LobbyError(String),
}

/// The public view of a running hand, as every subscriber sees it.
#[derive(Debug, Clone, PartialEq, Eq)]
pub struct PublicGameState {
    pub id: String,
    pub players: Vec<Player>,
    pub dealer_idx: usize,
    pub game_active_players: Vec<usize>,
    pub round_active_players: Vec<usize>,
    pub current_player_idx: usize,
    pub community_cards: Vec<u8>,
    pub stacks: Vec<ChipInt>,
    pub bets: Vec<ChipInt>,
    pub min_raise: ChipInt,
    pub to_call: ChipInt,
    pub pot: ChipInt,
}

/// What the server sends on the room side.
#[derive(Debug, Clone, PartialEq, Eq)]
pub enum ServerRoomPayload {
    Chat { from: PlayerId, message: String },
    SitTable { player: Player, index: usize },
    RoomError(String),
    NewGame(PublicGameState),
    GameUpdate(PublicGameState),
    DealHand(u8, u8),
    CommunityCards { flop: [u8; 3], turn: Option<u8>, river: Option<u8> },
    DeclareWinner { winner: PlayerId, hand: Vec<u8> },
}

/// The envelope every frame carries.
#[derive(Debug, Clone, PartialEq, Eq)]
pub enum PokerMessage {
    Client(Either<ClientLobby, RoomMessage<ClientRoomPayload>>),
    Server(Either<ServerLobby, RoomMessage<ServerRoomPayload>>),
}

/// The indices of the set entries of `s`, in increasing order.
pub open spec fn set_indices(s: Seq<bool>) -> Seq<usize>
    decreases s.len(),
{
    if s.len() == 0 {
        Seq::empty()
    } else {
        set_indices(s.drop_last()) + (if s.last() {
            seq![(s.len() - 1) as usize]
        } else {
            Seq::empty()
        })
    }
}

/// An index appears among the set indices exactly when its entry is set.
pub proof fn lemma_set_indices_contains(s: Seq<bool>, i: int)
    requires
        s.len() <= usize::MAX,
        0 <= i < s.len(),
    ensures
        s[i] <==> set_indices(s).contains(i as usize),
    decreases s.len(),
{
    let pre = set_indices(s.drop_last());
    if s.len() > 0 {
        if i == s.len() - 1 {
            if s[i] {
                assert(set_indices(s)[pre.len() as int] == i as usize);
                assert(set_indices(s).contains(i as usize));
            } else {
                if set_indices(s).contains(i as usize) {
                    let j = choose|j: int|
                        0 <= j < set_indices(s).len() && set_indices(s)[j] == i as usize;
                    lemma_set_indices_bound(s.drop_last());
                    assert(set_indices(s)[j] == pre[j]);
                    assert(pre[j] < s.drop_last().len());
                }
            }
        } else {
            lemma_set_indices_contains(s.drop_last(), i);
            assert(s.drop_last()[i] == s[i]);
            if s[i] {
                let j = choose|j: int| 0 <= j < pre.len() && pre[j] == i as usize;
                assert(set_indices(s)[j] == i as usize);
                assert(set_indices(s).contains(i as usize));
            } else {
                if set_indices(s).contains(i as usize) {
                    let j = choose|j: int|
                        0 <= j < set_indices(s).len() && set_indices(s)[j] == i as usize;
                    if j < pre.len() {
                        assert(set_indices(s)[j] == pre[j]);
                        assert(pre.contains(i as usize));
                    } else {
                        assert(s.last());
                        assert(set_indices(s)[j] == (s.len() - 1) as usize);
                    }
                }
            }
        }
    }
}

/// Every listed index points inside the sequence.
pub proof fn lemma_set_indices_bound(s: Seq<bool>)
    requires
        s.len() <= usize::MAX,
    ensures
        forall|j: int|
            0 <= j < set_indices(s).len() ==> (#[trigger] set_indices(s)[j]) < s.len(),
    decreases s.len(),
{
    if s.len() > 0 {
        lemma_set_indices_bound(s.drop_last());
        let pre = set_indices(s.drop_last());
        assert forall|j: int|
            0 <= j < set_indices(s).len() implies (#[trigger] set_indices(s)[j]) < s.len() by {
            if j < pre.len() {
                assert(set_indices(s)[j] == pre[j]);
                assert(pre[j] < s.drop_last().len());
            } else {
                assert(set_indices(s)[j] == (s.len() - 1) as usize);
            }
        }
    }
}

/// A copy of a vector of plain values.
fn copy_vec<T: Copy>(v: &Vec<T>) -> (r: Vec<T>)
    ensures
        r@ == v@,
{
    let n = v.len();
    let mut r: Vec<T> = Vec::new();
    let mut i: usize = 0;
    while i < n
        invariant
            i <= n == v@.len(),
            r@ =~= v@.subrange(0, i as int),
        decreases n - i,
    {
        r.push(v[i]);
        i = i + 1;
    }
    proof {
        assert(v@.subrange(0, n as int) =~= v@);
    }
    r
}

/// The seats whose entry of `flags` is set, in seat order.
fn indices_of(flags: &Vec<bool>) -> (r: Vec<usize>)
    ensures
        r@ == set_indices(flags@),
{
    let n = flags.len();
    let mut r: Vec<usize> = Vec::new();
    let mut i: usize = 0;
    while i < n
        invariant
            i <= n == flags@.len(),
            r@ == set_indices(flags@.subrange(0, i as int)),
        decreases n - i,
    {
        proof {
            assert(flags@.subrange(0, i as int + 1).drop_last() =~= flags@.subrange(0, i as int));
            assert(flags@.subrange(0, i as int + 1).last() == flags@[i as int]);
        }
        if flags[i] {
            r.push(i);
            proof {
                assert(r@ =~= set_indices(flags@.subrange(0, i as int + 1)));
            }
        } else {
            proof {
                assert(r@ =~= set_indices(flags@.subrange(0, i as int + 1)));
            }
        }
        i = i + 1;
    }
    proof {
        assert(flags@.subrange(0, n as int) =~= flags@);
    }
    r
}

impl PokerMessage {
    /// A client's request for the table list.
    pub fn get_tables() -> (r: PokerMessage)
        ensures
            r == PokerMessage::Client(
                Either::<ClientLobby, RoomMessage<ClientRoomPayload>>::Lobby(
                    ClientLobby::GetTables,
                ),
            ),
    {
        PokerMessage::Client(Either::Lobby(ClientLobby::GetTables))
    }

    /// A client's subscription to a room's broadcasts.
    pub fn subscribe_room(room_id: RoomId) -> (r: PokerMessage)
        ensures
            r == PokerMessage::Client(
                Either::<ClientLobby, RoomMessage<ClientRoomPayload>>::Room(
                    RoomMessage { room_id, payload: ClientRoomPayload::Subscribe },
                ),
            ),
    {
        PokerMessage::Client(
            Either::Room(RoomMessage { room_id, payload: ClientRoomPayload::Subscribe }),
        )
    }

    /// A client's chat line for a room.
    pub fn chat(room_id: RoomId, message: String) -> (r: PokerMessage)
        ensures
            r == PokerMessage::Client(
                Either::<ClientLobby, RoomMessage<ClientRoomPayload>>::Room(
                    RoomMessage { room_id, payload: ClientRoomPayload::Chat(message) },
                ),
            ),
    {
        PokerMessage::Client(
            Either::Room(RoomMessage { room_id, payload: ClientRoomPayload::Chat(message) }),
        )
    }

    /// A client's request to sit at a table with a buy-in.
    pub fn sit_table(room_id: RoomId, chips: ChipInt) -> (r: PokerMessage)
        ensures
            r == PokerMessage::Client(
                Either::<ClientLobby, RoomMessage<ClientRoomPayload>>::Room(
                    RoomMessage { room_id, payload: ClientRoomPayload::SitTable { chips } },
                ),
            ),
    {
        PokerMessage::Client(
            Either::Room(RoomMessage { room_id, payload: ClientRoomPayload::SitTable { chips } }),
        )
    }

    /// A client's bet in a running hand.
    pub fn bet(room_id: RoomId, bet: ChipInt) -> (r: PokerMessage)
        ensures
            r == PokerMessage::Client(
                Either::<ClientLobby, RoomMessage<ClientRoomPayload>>::Room(
                    RoomMessage {
                        room_id,
                        payload: ClientRoomPayload::PlayerAction(PlayerEvent::Bet(bet)),
                    },
                ),
            ),
    {
        PokerMessage::Client(
            Either::Room(
                RoomMessage {
                    room_id,
                    payload: ClientRoomPayload::PlayerAction(PlayerEvent::Bet(bet)),
                },
            ),
        )
    }

    /// A client's fold in a running hand.
    pub fn fold(room_id: RoomId) -> (r: PokerMessage)
        ensures
            r == PokerMessage::Client(
                Either::<ClientLobby, RoomMessage<ClientRoomPayload>>::Room(
                    RoomMessage {
                        room_id,
                        payload: ClientRoomPayload::PlayerAction(PlayerEvent::Fold),
                    },
                ),
            ),
    {
        PokerMessage::Client(
            Either::Room(
                RoomMessage { room_id, payload: ClientRoomPayload::PlayerAction(PlayerEvent::Fold) },
            ),
        )
    }

    /// A lobby-scoped error report.
    pub fn error_lobby(err: String) -> (r: PokerMessage)
        ensures
            r == PokerMessage::Server(
                Either::<ServerLobby, RoomMessage<ServerRoomPayload>>::Lobby(
                    ServerLobby::LobbyError(err),
                ),
            ),
    {
        PokerMessage::Server(Either::Lobby(ServerLobby::LobbyError(err)))
    }

    /// The lobby's table list.
    pub fn table_list(tables: Vec<TableConfig>) -> (r: PokerMessage)
        ensures
            r == PokerMessage::Server(
                Either::<ServerLobby, RoomMessage<ServerRoomPayload>>::Lobby(
                    ServerLobby::TableList(tables),
                ),
            ),
    {
        PokerMessage::Server(Either::Lobby(ServerLobby::TableList(tables)))
    }

    /// A room-scoped error report.
    pub fn error_room(room_id: RoomId, err: String) -> (r: PokerMessage)
        ensures
            r == PokerMessage::Server(
                Either::<ServerLobby, RoomMessage<ServerRoomPayload>>::Room(
                    RoomMessage { room_id, payload: ServerRoomPayload::RoomError(err) },
                ),
            ),
    {
        PokerMessage::Server(
            Either::Room(RoomMessage { room_id, payload: ServerRoomPayload::RoomError(err) }),
        )
    }

    /// A chat line echoed to a room.
    pub fn chat_broadcast(room_id: RoomId, from: PlayerId, message: String) -> (r: PokerMessage)
        ensures
            r == PokerMessage::Server(
                Either::<ServerLobby, RoomMessage<ServerRoomPayload>>::Room(
                    RoomMessage { room_id, payload: ServerRoomPayload::Chat { from, message } },
                ),
            ),
    {
        PokerMessage::Server(
            Either::Room(RoomMessage { room_id, payload: ServerRoomPayload::Chat { from, message } }),
        )
    }

    /// The announcement that a player took a seat.
    pub fn sit_table_broadcast(room_id: RoomId, player: Player, index: usize) -> (r: PokerMessage)
        ensures
            r == PokerMessage::Server(
                Either::<ServerLobby, RoomMessage<ServerRoomPayload>>::Room(
                    RoomMessage { room_id, payload: ServerRoomPayload::SitTable { player, index } },
                ),
            ),
    {
        PokerMessage::Server(
            Either::Room(
                RoomMessage { room_id, payload: ServerRoomPayload::SitTable { player, index } },
            ),
        )
    }

    /// The public view of a hand, as sent in new-game and game-update
    /// broadcasts.
    pub fn public_game_state_from_game(game: &Game) -> (s: PublicGameState)
        requires
            game.lens_ok(),
        ensures
            s.id@ == game.id@,
            s.players@.len() == game.n(),
            forall|i: int| 0 <= i < game.n() ==> #[trigger] s.players@[i] == game.players@[i].info,
            s.dealer_idx == game.dealer_idx,
            s.game_active_players@ == set_indices(game.player_active@),
            s.round_active_players@ == set_indices(game.round_data.needs_action@),
            s.current_player_idx == game.round_data.to_act_idx,
            s.community_cards@ == game.board@,
            s.stacks@ == game.stacks@,
            s.bets@ == game.round_data.player_bet@,
            s.min_raise == game.round_data.min_raise,
            s.to_call == game.round_data.bet,
            s.pot == game.total_pot,
    {
        let n = game.players.len();
        let mut players: Vec<Player> = Vec::new();
        let mut i: usize = 0;
        while i < n
            invariant
                i <= n,
                game.lens_ok(),
                n == game.n(),
                players@.len() == i,
                forall|k: int|
                    0 <= k < i ==> #[trigger] players@[k] == game.players@[k].info,
            decreases n - i,
        {
            players.push(
                Player {
                    id: game.players[i].info.id.clone(),
                    username: game.players[i].info.username.clone(),
                },
            );
            i = i + 1;
        }
        PublicGameState {
            id: game.id.clone(),
            players,
            dealer_idx: game.dealer_idx,
            game_active_players: indices_of(&game.player_active),
            round_active_players: indices_of(&game.round_data.needs_action),
            current_player_idx: game.round_data.to_act_idx,
            community_cards: copy_vec(&game.board),
            stacks: copy_vec(&game.stacks),
            bets: copy_vec(&game.round_data.player_bet),
            min_raise: game.round_data.min_raise,
            to_call: game.round_data.bet,
            pot: game.total_pot,
        }
    }

    /// A new-game broadcast.
    pub fn new_game(room_id: RoomId, new_game: &Game) -> (r: PokerMessage)
        requires
            new_game.lens_ok(),
        ensures
            new_game_msg_of(r, room_id, *new_game),
    {
        let state = PokerMessage::public_game_state_from_game(new_game);
        PokerMessage::Server(
            Either::Room(RoomMessage { room_id, payload: ServerRoomPayload::NewGame(state) }),
        )
    }

    /// A game-update broadcast.
    pub fn game_update(room_id: RoomId, game: &Game) -> (r: PokerMessage)
        requires
            game.lens_ok(),
        ensures
            game_update_msg_of(r, room_id, *game),
    {
        let state = PokerMessage::public_game_state_from_game(game);
        PokerMessage::Server(
            Either::Room(RoomMessage { room_id, payload: ServerRoomPayload::GameUpdate(state) }),
        )
    }

    /// The private deal of two hole cards to one player.
    pub fn deal_hand(room_id: RoomId, hand: (u8, u8)) -> (r: PokerMessage)
        ensures
            r == PokerMessage::Server(
                Either::<ServerLobby, RoomMessage<ServerRoomPayload>>::Room(
                    RoomMessage { room_id, payload: ServerRoomPayload::DealHand(hand.0, hand.1) },
                ),
            ),
    {
        PokerMessage::Server(
            Either::Room(
                RoomMessage { room_id, payload: ServerRoomPayload::DealHand(hand.0, hand.1) },
            ),
        )
    }

    /// The community cards dealt so far.
    pub fn community_cards(
        room_id: RoomId,
        flop: [u8; 3],
        turn: Option<u8>,
        river: Option<u8>,
    ) -> (r: PokerMessage)
        ensures
            r == PokerMessage::Server(
                Either::<ServerLobby, RoomMessage<ServerRoomPayload>>::Room(
                    RoomMessage {
                        room_id,
                        payload: ServerRoomPayload::CommunityCards { flop, turn, river },
                    },
                ),
            ),
    {
        PokerMessage::Server(
            Either::Room(
                RoomMessage {
                    room_id,
                    payload: ServerRoomPayload::CommunityCards { flop, turn, river },
                },
            ),
        )
    }
}

/// True when `r` announces a new hand `g` for room `room_id`.
pub open spec fn new_game_msg_of(r: PokerMessage, room_id: RoomId, g: Game) -> bool {
    match r {
        PokerMessage::Server(Either::Room(m)) => m.room_id == room_id && match m.payload {
            ServerRoomPayload::NewGame(s) => public_state_of(g, s),
            _ => false,
        },
        _ => false,
    }
}

/// True when `r` carries the public state of `g` for room `room_id`.
pub open spec fn game_update_msg_of(r: PokerMessage, room_id: RoomId, g: Game) -> bool {
    match r {
        PokerMessage::Server(Either::Room(m)) => m.room_id == room_id && match m.payload {
            ServerRoomPayload::GameUpdate(s) => public_state_of(g, s),
            _ => false,
        },
        _ => false,
    }
}

/// True when `s` is the public view of the hand `g`.
pub open spec fn public_state_of(g: Game, s: PublicGameState) -> bool {
    &&& s.id@ == g.id@
    &&& s.players@.len() == g.n()
    &&& (forall|i: int| 0 <= i < g.n() ==> #[trigger] s.players@[i] == g.players@[i].info)
    &&& s.dealer_idx == g.dealer_idx
    &&& s.game_active_players@ == set_indices(g.player_active@)
    &&& s.round_active_players@ == set_indices(g.round_data.needs_action@)
    &&& s.current_player_idx == g.round_data.to_act_idx
    &&& s.community_cards@ == g.board@
    &&& s.stacks@ == g.stacks@
    &&& s.bets@ == g.round_data.player_bet@
    &&& s.min_raise == g.round_data.min_raise
    &&& s.to_call == g.round_data.bet
    &&& s.pot == g.total_pot
}

} // verus!
