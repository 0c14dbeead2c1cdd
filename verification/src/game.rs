//! The poker hand engine: a deterministic state machine for one hand of
//! Texas Hold'em, from a dealt deck to the pot award.
//!
//! A hand owns its shuffled deck, the two hole cards of every seat, the
//! community board, the per-seat stacks and the data of the betting round
//! that is open. Betting amounts are the total a seat commits for the
//! round; an amount under the table bet is an all-in or is refused. A seat
//! that folds or runs out of chips leaves the active set; when one seat
//! remains, or after the river betting closes, the hand completes and the
//! whole pot goes to the winning seat (ties go to the lowest seat index).

use vstd::prelude::*;

use crate::cards::{
    distinct_cards, is_winning_seat, rank_of, rank_seven, shuffled_deck, valid_card, HandRank,
};
use crate::errors::PokerError;
use crate::player::{GamePlayer, Player};
use crate::{ChipInt, DEFAULT_CHIPS};

verus! {

/// A game shares the id of the table it is dealt at.
pub type GameId = String;

/// The streets of a hand, in the order they are played.
#[derive(Debug, Clone, Copy, PartialEq, Eq)]
pub enum Round {
    Starting,
    Preflop,
    Flop,
    Turn,
    River,
    Showdown,
    Complete,
}

impl Round {
    /// The position of the round in play order.
    pub open spec fn num(self) -> int {
        match self {
            Round::Starting => 0,
            Round::Preflop => 1,
            Round::Flop => 2,
            Round::Turn => 3,
            Round::River => 4,
            Round::Showdown => 5,
            Round::Complete => 6,
        }
    }

    /// The street that follows this one; completion is final.
    pub fn next(self) -> (r: Round)
        ensures
            r.num() == if self.num() < 6 {
                self.num() + 1
            } else {
                6int
            },
    {
        match self {
            Round::Starting => Round::Preflop,
            Round::Preflop => Round::Flop,
            Round::Flop => Round::Turn,
            Round::Turn => Round::River,
            Round::River => Round::Showdown,
            Round::Showdown => Round::Complete,
            Round::Complete => Round::Complete,
        }
    }

    /// How many community cards lie on the board during this round.
    pub open spec fn board_len(self) -> int {
        match self {
            Round::Starting => 0,
            Round::Preflop => 0,
            Round::Flop => 3,
            Round::Turn => 4,
            Round::River => 5,
            Round::Showdown => 5,
            Round::Complete => 5,
        }
    }

    /// A street with betting still open: preflop through river.
    pub open spec fn is_open(self) -> bool {
        1 <= self.num() <= 4
    }
}

/// The data of one betting round.
#[derive(Debug, Clone, PartialEq, Eq)]
pub struct RoundData {
    /// The highest total commitment any seat has made this round.
    pub bet: ChipInt,
    /// The minimum amount a raise must add on top of `bet`.
    pub min_raise: ChipInt,
    /// What each seat has committed this round.
    pub player_bet: Vec<ChipInt>,
    /// The seats that still have to act this round.
    pub needs_action: Vec<bool>,
    /// The seat whose turn it is.
    pub to_act_idx: usize,
}

/// One hand of poker.
#[derive(Debug, Clone, PartialEq, Eq)]
pub struct Game {
    pub id: GameId,
    /// The seats dealt into the hand, in seat order.
    pub players: Vec<GamePlayer>,
    pub dealer_idx: usize,
    pub small_blind: ChipInt,
    pub big_blind: ChipInt,
    /// Chips each seat still holds.
    pub stacks: Vec<ChipInt>,
    /// The seats still in the hand; folding or going all-in leaves it.
    pub player_active: Vec<bool>,
    /// Two hole cards per seat.
    pub hands: Vec<(u8, u8)>,
    /// The community cards dealt so far.
    pub board: Vec<u8>,
    /// The full shuffled deck of the hand; cards are dealt off its end,
    /// hole cards first and then the board, so the dealt cards are read
    /// from its tail positions.
    pub deck: Vec<u8>,
    /// All chips committed this hand.
    pub total_pot: ChipInt,
    pub round: Round,
    pub round_data: RoundData,
}

/// The chips a sequence of stacks holds in total.
pub open spec fn sum_chips(s: Seq<ChipInt>) -> int
    decreases s.len(),
{
    if s.len() == 0 {
        0
    } else {
        s[0] + sum_chips(s.drop_first())
    }
}

/// How many entries of `s` are set.
pub open spec fn count_true(s: Seq<bool>) -> int
    decreases s.len(),
{
    if s.len() == 0 {
        0
    } else {
        (if s[0] {
            1int
        } else {
            0int
        }) + count_true(s.drop_first())
    }
}

/// True when some entry of `s` is set.
pub open spec fn has_true(s: Seq<bool>) -> bool {
    exists|i: int| 0 <= i < s.len() && s[i]
}

/// The seven cards seat `i` shows at showdown: hole cards, then the board.
pub open spec fn showdown_cards(g: Game, i: int) -> Seq<u8> {
    seq![g.hands@[i].0, g.hands@[i].1] + g.board@
}

/// The rank each seat shows at completion; `None` for seats out of the hand.
pub open spec fn seat_ranks(g: Game) -> Seq<Option<HandRank>> {
    Seq::new(
        g.players@.len() as nat,
        |i: int|
            if g.player_active@[i] {
                Some(rank_of(showdown_cards(g, i)))
            } else {
                None
            },
    )
}

/// True when no seat of `players` carries an auto-action flag.
pub open spec fn no_auto_flags(players: Seq<GamePlayer>) -> bool {
    forall|i: int|
        0 <= i < players.len() ==> !(#[trigger] players[i]).check_fold && !players[i].call_any
}

impl Game {
    /// The number of seats dealt into the hand.
    pub open spec fn n(&self) -> int {
        self.players@.len() as int
    }

    /// The structural part of well-formedness: every per-seat sequence has
    /// one entry per seat and the indices point at seats.
    pub open spec fn lens_ok(&self) -> bool {
        &&& 2 <= self.n() <= 23
        &&& self.stacks@.len() == self.n()
        &&& self.player_active@.len() == self.n()
        &&& self.hands@.len() == self.n()
        &&& self.round_data.player_bet@.len() == self.n()
        &&& self.round_data.needs_action@.len() == self.n()
        &&& self.dealer_idx < self.n()
        &&& self.round_data.to_act_idx < self.n()
    }

    /// The card part of well-formedness. The deck keeps all 52 distinct
    /// cards for the whole hand; what has been dealt is read off its tail:
    /// the hole cards came first, one card per seat and then a second, and
    /// the board follows.
    pub open spec fn cards_ok(&self) -> bool {
        &&& distinct_cards(self.deck@)
        &&& self.deck@.len() == 52
        &&& self.board@.len() <= 5
        &&& forall|i: int|
            0 <= i < self.n() ==> (#[trigger] self.hands@[i]).0 == self.deck@[51 - i]
                && self.hands@[i].1 == self.deck@[51 - self.n() - i]
        &&& forall|j: int|
            0 <= j < self.board@.len() ==> #[trigger] self.board@[j] == self.deck@[51 - 2
                * self.n() - j]
    }

    /// The chip part of well-formedness: blinds are sane, chips are
    /// conserved, and round bets stay under the table bet.
    pub open spec fn chips_ok(&self) -> bool {
        &&& 1 <= self.small_blind <= self.big_blind < DEFAULT_CHIPS
        &&& sum_chips(self.stacks@) + self.total_pot == self.n() * DEFAULT_CHIPS
        &&& self.big_blind <= self.round_data.min_raise <= DEFAULT_CHIPS
        &&& self.round_data.bet <= DEFAULT_CHIPS
        &&& forall|i: int|
            0 <= i < self.n() ==> #[trigger] self.round_data.player_bet@[i]
                <= self.round_data.bet
        &&& (self.round != Round::Complete ==> forall|i: int|
            0 <= i < self.n() ==> #[trigger] self.round_data.player_bet@[i] + self.stacks@[i]
                <= DEFAULT_CHIPS)
        &&& (self.round == Round::Complete ==> self.total_pot == 0)
    }

    /// The activity part of well-formedness: seats that still have to act
    /// are in the hand, and the hand has enough live seats for its round.
    pub open spec fn active_ok(&self) -> bool {
        &&& forall|i: int|
            0 <= i < self.n() && #[trigger] self.round_data.needs_action@[i]
                ==> self.player_active@[i]
        &&& count_true(self.player_active@) >= 1
        &&& (self.round != Round::Complete ==> count_true(self.player_active@) >= 2)
    }

    /// Well-formedness that holds between the hand engine's operations,
    /// with the hand either on an open street or complete.
    pub open spec fn wf(&self) -> bool {
        &&& self.lens_ok()
        &&& self.cards_ok()
        &&& self.chips_ok()
        &&& self.active_ok()
        &&& self.round.is_open() || self.round == Round::Complete
        &&& self.board@.len() == self.round.board_len() || self.round == Round::Complete
        &&& (self.round.is_open() ==> self.round_data.needs_action@[self.round_data.to_act_idx as int])
    }

    /// True once the hand is complete.
    pub open spec fn is_over_spec(&self) -> bool {
        self.round == Round::Complete
    }
}

/// Summing a sequence of chip counts never goes negative.
pub proof fn lemma_sum_nonneg(s: Seq<ChipInt>)
    ensures
        sum_chips(s) >= 0,
    decreases s.len(),
{
    if s.len() > 0 {
        lemma_sum_nonneg(s.drop_first());
    }
}

/// Every single stack is at most the sum of all of them.
pub proof fn lemma_sum_elem_le(s: Seq<ChipInt>, i: int)
    requires
        0 <= i < s.len(),
    ensures
        s[i] <= sum_chips(s),
    decreases s.len(),
{
    lemma_sum_nonneg(s.drop_first());
    if i > 0 {
        lemma_sum_elem_le(s.drop_first(), i - 1);
    }
}

/// Changing one stack changes the sum by exactly the difference.
pub proof fn lemma_sum_update(s: Seq<ChipInt>, i: int, v: ChipInt)
    requires
        0 <= i < s.len(),
    ensures
        sum_chips(s.update(i, v)) == sum_chips(s) - s[i] + v,
    decreases s.len(),
{
    if i == 0 {
        assert(s.update(0, v).drop_first() =~= s.drop_first());
    } else {
        assert(s.update(i, v).drop_first() =~= s.drop_first().update(i - 1, v));
        lemma_sum_update(s.drop_first(), i - 1, v);
    }
}

/// A count of set entries lies between zero and the length.
pub proof fn lemma_count_bounds(s: Seq<bool>)
    ensures
        0 <= count_true(s) <= s.len(),
    decreases s.len(),
{
    if s.len() > 0 {
        lemma_count_bounds(s.drop_first());
    }
}

/// Clearing a set entry lowers the count by one; clearing a clear one, or
/// setting a set one, leaves it unchanged.
pub proof fn lemma_count_update(s: Seq<bool>, i: int, v: bool)
    requires
        0 <= i < s.len(),
    ensures
        count_true(s.update(i, v)) == count_true(s) + (if v {
            1int
        } else {
            0int
        }) - (if s[i] {
            1int
        } else {
            0int
        }),
    decreases s.len(),
{
    if i == 0 {
        assert(s.update(0, v).drop_first() =~= s.drop_first());
    } else {
        assert(s.update(i, v).drop_first() =~= s.drop_first().update(i - 1, v));
        lemma_count_update(s.drop_first(), i - 1, v);
    }
}

/// A set entry forces the count to be positive, and a count of one pins
/// every other entry clear.
pub proof fn lemma_count_pos(s: Seq<bool>, i: int)
    requires
        0 <= i < s.len(),
        s[i],
    ensures
        count_true(s) >= 1,
    decreases s.len(),
{
    if i > 0 {
        lemma_count_pos(s.drop_first(), i - 1);
        lemma_count_bounds(s.drop_first());
    } else {
        lemma_count_bounds(s.drop_first());
    }
}

/// With two distinct set entries the count is at least two.
pub proof fn lemma_count_two(s: Seq<bool>, i: int, j: int)
    requires
        0 <= i < j < s.len(),
        s[i],
        s[j],
    ensures
        count_true(s) >= 2,
    decreases s.len(),
{
    if i == 0 {
        lemma_count_pos(s.drop_first(), j - 1);
    } else {
        lemma_count_two(s.drop_first(), i - 1, j - 1);
    }
}

/// A count of zero means no entry is set.
pub proof fn lemma_count_zero(s: Seq<bool>)
    ensures
        count_true(s) == 0 <==> !has_true(s),
    decreases s.len(),
{
    lemma_count_bounds(s);
    if s.len() > 0 {
        lemma_count_zero(s.drop_first());
        lemma_count_bounds(s.drop_first());
        if has_true(s) {
            let i = choose|i: int| 0 <= i < s.len() && s[i];
            if i > 0 {
                assert(s.drop_first()[i - 1]);
                assert(has_true(s.drop_first()));
            }
        } else {
            assert(!s[0]);
            if has_true(s.drop_first()) {
                let j = choose|j: int| 0 <= j < s.drop_first().len() && s.drop_first()[j];
                assert(s[j + 1]);
            }
        }
    }
}

/// An index advanced by `d` seats around a table of `n`, for `i + d` under
/// `2 * n`.
pub open spec fn wrap(i: int, n: int) -> int {
    if i < n {
        i
    } else {
        i - n
    }
}

/// The first seat at distance `d` or more clockwise of `from` that still
/// has to act; the seat a full lap away when none does.
pub open spec fn next_from(needs: Seq<bool>, from: int, d: int) -> int
    decreases needs.len() - d,
{
    let n = needs.len() as int;
    let cand = wrap(from + d, n);
    if d >= n || needs[cand] {
        cand
    } else {
        next_from(needs, from, d + 1)
    }
}

/// The seat the action moves to after `from` acts: the next seat that
/// still has to act, or simply the next seat when nobody does.
pub open spec fn spec_next_to_act(needs: Seq<bool>, from: int) -> int {
    if has_true(needs) {
        next_from(needs, from, 1)
    } else {
        wrap(from + 1, needs.len() as int)
    }
}

/// While some seat has to act, the search lands on one.
pub proof fn lemma_next_from_needs(needs: Seq<bool>, from: int, d: int)
    requires
        0 <= from < needs.len(),
        1 <= d <= needs.len(),
        exists|e: int|
            d <= e <= needs.len() && #[trigger] needs[wrap(from + e, needs.len() as int)],
    ensures
        0 <= next_from(needs, from, d) < needs.len(),
        needs[next_from(needs, from, d)],
    decreases needs.len() - d,
{
    let n = needs.len() as int;
    let cand = wrap(from + d, n);
    if d >= n || needs[cand] {
        if !needs[cand] {
            let e = choose|e: int| d <= e <= n && #[trigger] needs[wrap(from + e, n)];
            assert(e == d);
        }
    } else {
        let e = choose|e: int| d <= e <= n && #[trigger] needs[wrap(from + e, n)];
        assert(e > d);
        lemma_next_from_needs(needs, from, d + 1);
    }
}

/// Whatever seat has to act lies at some distance between one and a lap.
pub proof fn lemma_needing_distance(needs: Seq<bool>, from: int, j: int)
    requires
        0 <= from < needs.len(),
        0 <= j < needs.len(),
        needs[j],
    ensures
        exists|e: int|
            1 <= e <= needs.len() && #[trigger] needs[wrap(from + e, needs.len() as int)],
{
    let n = needs.len() as int;
    let e = if j > from {
        j - from
    } else {
        j - from + n
    };
    assert(1 <= e <= n && needs[wrap(from + e, n)]);
}

/// The smaller of two numbers.
pub open spec fn spec_min(a: int, b: int) -> int {
    if a < b {
        a
    } else {
        b
    }
}

/// The larger of two numbers.
pub open spec fn spec_max(a: int, b: int) -> int {
    if a > b {
        a
    } else {
        b
    }
}

impl Game {
    /// The seat whose turn it is.
    pub open spec fn actor(&self) -> int {
        self.round_data.to_act_idx as int
    }

    /// Seats that still have to act are always seats still in the hand.
    pub open spec fn needs_subset_active(&self) -> bool {
        forall|i: int|
            0 <= i < self.n() && #[trigger] self.round_data.needs_action@[i]
                ==> self.player_active@[i]
    }

    /// Well-formedness between the internal steps of one betting round:
    /// everything of `wf` except that the hand is mid-action, so the seat
    /// to act is not yet settled.
    pub open spec fn step_wf(&self) -> bool {
        &&& self.lens_ok()
        &&& self.cards_ok()
        &&& self.chips_ok()
        &&& self.needs_subset_active()
        &&& self.round.is_open()
        &&& self.board@.len() == self.round.board_len()
    }
}

/// The chips a bet of `amount` in total would move from the actor's stack:
/// the difference to what the seat already committed, capped at the stack.
pub open spec fn bet_extra_spec(g: Game, amount: int) -> int {
    let i = g.actor();
    spec_min(amount - g.round_data.player_bet@[i], g.stacks@[i] as int)
}

/// Whether the engine accepts a voluntary bet of `amount` in total for the
/// round: at least the seat's own commitment so far, and either matching
/// the table bet, raising it by at least the minimum raise, or moving the
/// seat all-in.
pub open spec fn bet_valid_spec(g: Game, amount: int) -> bool {
    let i = g.actor();
    let pb = g.round_data.player_bet@[i] as int;
    let extra = bet_extra_spec(g, amount);
    let newpb = pb + extra;
    let all_in = extra == g.stacks@[i];
    let raise = newpb - g.round_data.bet;
    &&& amount >= pb
    &&& (newpb >= g.round_data.bet || all_in)
    &&& (raise <= 0 || all_in || raise >= g.round_data.min_raise)
}

/// How one accepted bet, forced or voluntary, transforms the hand: chips
/// move from the seat's stack into the pot, the table bet and minimum
/// raise rise on a raise, a raise re-opens the action for the other live
/// seats, an all-in removes the seat from the hand, and the turn moves to
/// the next seat that has to act.
pub open spec fn bet_step_post(g: Game, h: Game, amount: int, forced: bool) -> bool {
    let i = g.actor();
    let pb = g.round_data.player_bet@[i] as int;
    let extra = bet_extra_spec(g, amount);
    let newpb = pb + extra;
    let newbet = spec_max(g.round_data.bet as int, newpb);
    let went_all_in = g.stacks@[i] == extra;
    let base = if newbet > g.round_data.bet {
        g.player_active@
    } else {
        g.round_data.needs_action@
    };
    let needs1 = base.update(
        i,
        if forced && !went_all_in {
            base[i]
        } else {
            false
        },
    );
    &&& h.id == g.id
    &&& h.players == g.players
    &&& h.dealer_idx == g.dealer_idx
    &&& h.small_blind == g.small_blind
    &&& h.big_blind == g.big_blind
    &&& h.hands == g.hands
    &&& h.board == g.board
    &&& h.deck == g.deck
    &&& h.round == g.round
    &&& h.stacks@ == g.stacks@.update(i, (g.stacks@[i] - extra) as u64)
    &&& h.total_pot == g.total_pot + extra
    &&& h.player_active@ == (if went_all_in {
        g.player_active@.update(i, false)
    } else {
        g.player_active@
    })
    &&& h.round_data.bet == newbet
    &&& h.round_data.min_raise == spec_max(
        g.round_data.min_raise as int,
        newbet - g.round_data.bet,
    )
    &&& h.round_data.player_bet@ == g.round_data.player_bet@.update(i, newpb as u64)
    &&& h.round_data.needs_action@ == needs1
    &&& h.round_data.to_act_idx == spec_next_to_act(needs1, i)
}

/// The turn always moves to a seat that has to act while one exists.
pub proof fn lemma_next_to_act_needs(needs: Seq<bool>, from: int)
    requires
        0 <= from < needs.len(),
    ensures
        0 <= spec_next_to_act(needs, from) < needs.len(),
        has_true(needs) ==> needs[spec_next_to_act(needs, from)],
{
    if has_true(needs) {
        let j = choose|j: int| 0 <= j < needs.len() && needs[j];
        lemma_needing_distance(needs, from, j);
        lemma_next_from_needs(needs, from, 1);
    }
}

impl Game {
    /// The next seat to act, scanning clockwise from `from`.
    fn next_to_act(needs: &Vec<bool>, from: usize) -> (r: usize)
        requires
            0 < needs@.len() <= 23,
            from < needs@.len(),
        ensures
            r < needs@.len(),
            r as int == spec_next_to_act(needs@, from as int),
            has_true(needs@) ==> needs@[r as int],
    {
        let n = needs.len();
        let mut d: usize = 1;
        while d <= n
            invariant
                0 < n == needs@.len() <= 23,
                from < n,
                1 <= d <= n + 1,
                forall|e: int| 1 <= e < d ==> !(#[trigger] needs@[wrap(from + e, n as int)]),
            decreases n + 1 - d,
        {
            let cand = if from + d < n {
                from + d
            } else {
                from + d - n
            };
            if needs[cand] {
                proof {
                    lemma_next_from_skip(needs@, from as int, d as int);
                }
                return cand;
            }
            d = d + 1;
        }
        proof {
            if has_true(needs@) {
                let j = choose|j: int| 0 <= j < needs@.len() && needs@[j];
                lemma_needing_distance(needs@, from as int, j);
                let e = choose|e: int|
                    1 <= e <= needs@.len() && #[trigger] needs@[wrap(from + e, needs@.len() as int)];
                assert(!needs@[wrap(from + e, n as int)]);
            }
        }
        if from + 1 < n {
            from + 1
        } else {
            from + 1 - n
        }
    }

    /// One bet by the seat to act: validates the amount, moves the chips,
    /// and passes the turn. Forced bets post the blinds and never fail.
    fn do_bet_inner(&mut self, amount: u64, forced: bool) -> (r: Result<u64, PokerError>)
        requires
            old(self).step_wf(),
            old(self).player_active@[old(self).actor()],
            count_true(old(self).player_active@) >= 2,
            forced ==> old(self).stacks@[old(self).actor()] == DEFAULT_CHIPS && 1 <= amount
                <= old(self).big_blind && old(self).round_data.player_bet@[old(self).actor()] == 0,
        ensures
            r is Ok <==> (forced || bet_valid_spec(*old(self), amount as int)),
            r is Err ==> *final(self) == *old(self) && r == Err::<u64, PokerError>(
                PokerError::InvalidBet,
            ),
            r is Ok ==> bet_step_post(*old(self), *final(self), amount as int, forced) && r
                == Ok::<u64, PokerError>(bet_extra_spec(*old(self), amount as int) as u64),
            r is Ok ==> final(self).step_wf() && count_true(final(self).player_active@) >= 1,
    {
        proof {
            lemma_sum_elem_le(self.stacks@, self.actor());
            lemma_sum_nonneg(self.stacks@);
        }
        let i = self.round_data.to_act_idx;
        let pb = self.round_data.player_bet[i];
        let stack = self.stacks[i];
        let extra: u64;
        if forced {
            extra = if amount < stack {
                amount
            } else {
                stack
            };
        } else {
            if amount < pb {
                return Err(PokerError::InvalidBet);
            }
            let extra0 = amount - pb;
            extra = if extra0 < stack {
                extra0
            } else {
                stack
            };
            let all_in = extra == stack;
            let newpb = pb + extra;
            if newpb < self.round_data.bet && !all_in {
                return Err(PokerError::InvalidBet);
            }
            if newpb > self.round_data.bet && !all_in && newpb - self.round_data.bet
                < self.round_data.min_raise {
                return Err(PokerError::InvalidBet);
            }
        }
        let ghost g = *self;
        let newpb = pb + extra;
        self.stacks.set(i, stack - extra);
        self.round_data.player_bet.set(i, newpb);
        self.total_pot = self.total_pot + extra;
        let prev_bet = self.round_data.bet;
        if newpb > prev_bet {
            self.round_data.bet = newpb;
            let raise_amt = newpb - prev_bet;
            if raise_amt > self.round_data.min_raise {
                self.round_data.min_raise = raise_amt;
            }
            self.round_data.needs_action = self.player_active.clone();
            proof {
                assert(self.round_data.needs_action@ =~= g.player_active@);
            }
        }
        let went_all_in = stack == extra;
        if !forced || went_all_in {
            self.round_data.needs_action.set(i, false);
        }
        if went_all_in {
            self.player_active.set(i, false);
        }
        proof {
            let base = if self.round_data.bet > g.round_data.bet {
                g.player_active@
            } else {
                g.round_data.needs_action@
            };
            let keep = forced && !went_all_in;
            assert(self.round_data.needs_action@ =~= base.update(
                i as int,
                if keep {
                    base[i as int]
                } else {
                    false
                },
            ));
            lemma_sum_update(g.stacks@, i as int, (g.stacks@[i as int] - extra) as u64);
            lemma_count_update(g.player_active@, i as int, false);
        }
        let nxt = Game::next_to_act(&self.round_data.needs_action, i);
        self.round_data.to_act_idx = nxt;
        Ok(extra)
    }

    /// The seat to act folds: it leaves the hand and the turn passes on.
    fn do_fold_inner(&mut self)
        requires
            old(self).step_wf(),
            count_true(old(self).player_active@) >= 2,
        ensures
            final(self).step_wf(),
            count_true(final(self).player_active@) >= 1,
            fold_step_post(*old(self), *final(self)),
    {
        let i = self.round_data.to_act_idx;
        let ghost g = *self;
        self.round_data.needs_action.set(i, false);
        self.player_active.set(i, false);
        proof {
            lemma_count_update(g.player_active@, i as int, false);
        }
        let nxt = Game::next_to_act(&self.round_data.needs_action, i);
        self.round_data.to_act_idx = nxt;
    }
}

/// How a fold transforms the hand: the seat leaves the hand and the round,
/// no chips move, and the turn passes to the next seat that has to act.
pub open spec fn fold_step_post(g: Game, h: Game) -> bool {
    let i = g.actor();
    let needs1 = g.round_data.needs_action@.update(i, false);
    &&& h.id == g.id
    &&& h.players == g.players
    &&& h.dealer_idx == g.dealer_idx
    &&& h.small_blind == g.small_blind
    &&& h.big_blind == g.big_blind
    &&& h.hands == g.hands
    &&& h.board == g.board
    &&& h.deck == g.deck
    &&& h.round == g.round
    &&& h.stacks == g.stacks
    &&& h.total_pot == g.total_pot
    &&& h.player_active@ == g.player_active@.update(i, false)
    &&& h.round_data.bet == g.round_data.bet
    &&& h.round_data.min_raise == g.round_data.min_raise
    &&& h.round_data.player_bet == g.round_data.player_bet
    &&& h.round_data.needs_action@ == needs1
    &&& h.round_data.to_act_idx == spec_next_to_act(needs1, i)
}

/// If two seats were in the hand and one leaves, another remains.
pub proof fn lemma_count_two_exists(s: Seq<bool>, i: int)
    requires
        0 <= i < s.len(),
        count_true(s) >= 2,
    ensures
        count_true(s.update(i, false)) >= 1,
{
    lemma_count_update(s, i, false);
}

/// The seat one place clockwise of `i` at a table of `n` seats.
pub open spec fn seat_after(i: int, n: int) -> int {
    wrap(i + 1, n)
}

/// Appending an entry adds one to the count when it is set.
pub proof fn lemma_count_push(s: Seq<bool>, b: bool)
    ensures
        count_true(s.push(b)) == count_true(s) + (if b {
            1int
        } else {
            0int
        }),
    decreases s.len(),
{
    if s.len() == 0 {
        assert(s.push(b).drop_first() =~= Seq::<bool>::empty());
        assert(count_true(s.push(b)) == (if s.push(b)[0] {
            1int
        } else {
            0int
        }) + count_true(s.push(b).drop_first()));
        assert(s.push(b)[0] == b);
        assert(count_true(Seq::<bool>::empty()) == 0);
    } else {
        lemma_count_push(s.drop_first(), b);
        assert(s.push(b).drop_first() =~= s.drop_first().push(b));
        assert(count_true(s.push(b)) == (if s.push(b)[0] {
            1int
        } else {
            0int
        }) + count_true(s.push(b).drop_first()));
        assert(s.push(b)[0] == s[0]);
    }
}

/// How a street transition transforms the hand: the next street opens with
/// a fresh betting round for the live seats, the board grows to the new
/// street's size, and the first live seat after the dealer acts first.
pub open spec fn street_step_post(g: Game, h: Game) -> bool {
    &&& h.id == g.id
    &&& h.players == g.players
    &&& h.dealer_idx == g.dealer_idx
    &&& h.small_blind == g.small_blind
    &&& h.big_blind == g.big_blind
    &&& h.hands == g.hands
    &&& h.deck == g.deck
    &&& h.stacks == g.stacks
    &&& h.total_pot == g.total_pot
    &&& h.player_active == g.player_active
    &&& h.round.num() == g.round.num() + 1
    &&& h.board@.len() == h.round.board_len()
    &&& h.round_data.bet == 0
    &&& h.round_data.min_raise == g.big_blind
    &&& h.round_data.player_bet@ == Seq::new(g.n() as nat, |i: int| 0u64)
    &&& h.round_data.needs_action@ == g.player_active@
    &&& h.round_data.to_act_idx == spec_next_to_act(g.player_active@, g.dealer_idx as int)
}

/// The seat that takes the pot when the hand completes: the last seat in
/// the hand when only one remains, else the strongest shown rank, ties to
/// the lowest seat index.
pub open spec fn complete_winner(g: Game, w: int) -> bool {
    if count_true(g.player_active@) == 1 {
        0 <= w < g.n() && g.player_active@[w]
    } else {
        is_winning_seat(seat_ranks(g), w)
    }
}

/// How completion transforms the hand: the round closes and the whole pot
/// moves into the winning seat's stack.
pub open spec fn complete_post(g: Game, h: Game) -> bool {
    &&& h.id == g.id
    &&& h.players == g.players
    &&& h.dealer_idx == g.dealer_idx
    &&& h.small_blind == g.small_blind
    &&& h.big_blind == g.big_blind
    &&& h.hands == g.hands
    &&& h.deck == g.deck
    &&& h.board == g.board
    &&& h.player_active == g.player_active
    &&& h.round == Round::Complete
    &&& h.total_pot == 0
    &&& h.round_data == g.round_data
    &&& exists|w: int|
        #[trigger] complete_winner(g, w) && h.stacks@ == g.stacks@.update(
            w,
            (g.stacks@[w] + g.total_pot) as u64,
        )
}

impl Game {
    /// Counts the seats still in the hand.
    fn count_active(v: &Vec<bool>) -> (c: usize)
        ensures
            c as int == count_true(v@),
    {
        let n = v.len();
        let mut c: usize = 0;
        let mut i: usize = 0;
        while i < n
            invariant
                i <= n == v@.len(),
                c as int == count_true(v@.subrange(0, i as int)),
                c <= i,
            decreases n - i,
        {
            proof {
                lemma_count_push(v@.subrange(0, i as int), v@[i as int]);
                assert(v@.subrange(0, i as int + 1) =~= v@.subrange(0, i as int).push(
                    v@[i as int],
                ));
            }
            if v[i] {
                c = c + 1;
            }
            i = i + 1;
        }
        proof {
            assert(v@.subrange(0, n as int) =~= v@);
        }
        c
    }

    /// A vector of `n` copies of `val`.
    fn filled<T: Copy>(n: usize, val: T) -> (v: Vec<T>)
        ensures
            v@ == Seq::new(n as nat, |i: int| val),
    {
        let mut v: Vec<T> = Vec::new();
        let mut i: usize = 0;
        while i < n
            invariant
                i <= n,
                v@ =~= Seq::new(i as nat, |j: int| val),
            decreases n - i,
        {
            v.push(val);
            i = i + 1;
        }
        proof {
            assert(v@ =~= Seq::new(n as nat, |i: int| val));
        }
        v
    }

    /// Moves the hand from the blinds post to the flop, turn, river or
    /// showdown once the open street's betting is settled.
    fn advance_street(&mut self)
        requires
            old(self).step_wf(),
            !has_true(old(self).round_data.needs_action@),
            count_true(old(self).player_active@) >= 2,
        ensures
            street_step_post(*old(self), *final(self)),
            final(self).step_wf() || final(self).round == Round::Showdown,
            final(self).lens_ok() && final(self).cards_ok() && final(self).chips_ok()
                && final(self).needs_subset_active(),
            final(self).board@.len() == final(self).round.board_len(),
            final(self).round_data.needs_action@[final(self).round_data.to_act_idx as int],
            count_true(final(self).player_active@) == count_true(old(self).player_active@),
    {
        let ghost g = *self;
        let n = self.players.len();
        self.round = self.round.next();
        let deal = if matches!(self.round, Round::Flop) {
            3
        } else if matches!(self.round, Round::Turn) || matches!(self.round, Round::River) {
            1
        } else {
            0
        };
        let mut dealt: usize = 0;
        while dealt < deal
            invariant
                dealt <= deal <= 3,
                n == g.n(),
                self.deck@.len() == 52,
                2 <= n <= 23,
                self.board@.len() == g.board@.len() + dealt,
                g.board@.len() + deal == self.round.board_len(),
                self.board@.len() <= 5,
                forall|j: int|
                    0 <= j < self.board@.len() ==> #[trigger] self.board@[j] == self.deck@[51 - 2
                        * (n as int) - j],
                self.deck == g.deck,
                self.hands == g.hands,
                self.players == g.players,
                self.stacks == g.stacks,
                self.player_active == g.player_active,
                self.total_pot == g.total_pot,
                self.round_data == g.round_data,
                self.id == g.id,
                self.dealer_idx == g.dealer_idx,
                self.small_blind == g.small_blind,
                self.big_blind == g.big_blind,
                self.round.num() == g.round.num() + 1,
            decreases deal - dealt,
        {
            let pos = 51 - 2 * n - self.board.len();
            let card = self.deck[pos];
            self.board.push(card);
            dealt = dealt + 1;
        }
        self.round_data.bet = 0;
        self.round_data.min_raise = self.big_blind;
        self.round_data.player_bet = Game::filled(n, 0u64);
        self.round_data.needs_action = self.player_active.clone();
        proof {
            assert(self.round_data.needs_action@ =~= g.player_active@);
            if count_true(g.player_active@) >= 2 {
                lemma_count_zero(g.player_active@);
            }
        }
        let nxt = Game::next_to_act(&self.round_data.needs_action, self.dealer_idx);
        self.round_data.to_act_idx = nxt;
        proof {
            assert forall|i: int|
                0 <= i < self.n() implies self.round_data.player_bet@[i] + self.stacks@[i]
                <= DEFAULT_CHIPS by {
                assert(g.round_data.player_bet@[i] + g.stacks@[i] <= DEFAULT_CHIPS);
                assert(self.round_data.player_bet@[i] == 0);
            }
        }
    }

    /// The rank each live seat shows, from its hole cards and the board.
    fn compute_ranks(&self) -> (r: Vec<Option<HandRank>>)
        requires
            self.lens_ok(),
            self.cards_ok(),
            self.board@.len() == 5,
        ensures
            r@ == seat_ranks(*self),
    {
        let n = self.players.len();
        let mut r: Vec<Option<HandRank>> = Vec::new();
        let mut i: usize = 0;
        while i < n
            invariant
                i <= n,
                self.lens_ok(),
                self.cards_ok(),
                self.board@.len() == 5,
                n == self.n(),
                r@.len() == i,
                forall|k: int| 0 <= k < i ==> #[trigger] r@[k] == seat_ranks(*self)[k],
            decreases n - i,
        {
            if self.player_active[i] {
                let mut cards: Vec<u8> = Vec::new();
                cards.push(self.hands[i].0);
                cards.push(self.hands[i].1);
                let mut j: usize = 0;
                while j < 5
                    invariant
                        j <= 5,
                        self.board@.len() == 5,
                        i < self.n(),
                        self.lens_ok(),
                        cards@ =~= seq![
                            self.hands@[i as int].0,
                            self.hands@[i as int].1,
                        ] + self.board@.subrange(0, j as int),
                    decreases 5 - j,
                {
                    let card = self.board[j];
                    cards.push(card);
                    proof {
                        assert(self.board@.subrange(0, j as int + 1) =~= self.board@.subrange(
                            0,
                            j as int,
                        ).push(self.board@[j as int]));
                    }
                    j = j + 1;
                }
                proof {
                    assert(self.board@.subrange(0, 5) =~= self.board@);
                    assert(cards@ =~= showdown_cards(*self, i as int));
                    lemma_showdown_distinct(*self, i as int);
                }
                let rk = rank_seven(&cards);
                r.push(Some(rk));
            } else {
                r.push(None);
            }
            i = i + 1;
        }
        proof {
            assert(r@ =~= seat_ranks(*self));
        }
        r
    }

    /// Ends the hand: ranks the live seats where more than one remains,
    /// and moves the whole pot to the winning seat.
    fn complete_inner(&mut self)
        requires
            old(self).lens_ok(),
            old(self).cards_ok(),
            old(self).chips_ok(),
            old(self).needs_subset_active(),
            count_true(old(self).player_active@) >= 1,
            count_true(old(self).player_active@) >= 2 ==> old(self).board@.len() == 5,
        ensures
            complete_post(*old(self), *final(self)),
            final(self).lens_ok() && final(self).cards_ok() && final(self).chips_ok()
                && final(self).needs_subset_active(),
            count_true(final(self).player_active@) >= 1,
    {
        let ghost g = *self;
        let n = self.players.len();
        let active_cnt = Game::count_active(&self.player_active);
        let winner: usize;
        if active_cnt == 1 {
            let mut w: usize = 0;
            let mut i: usize = 0;
            let mut found = false;
            while i < n
                invariant
                    i <= n == self.n(),
                    self.lens_ok(),
                    found ==> w < i && self.player_active@[w as int],
                    !found ==> forall|k: int| 0 <= k < i ==> !(#[trigger] self.player_active@[k]),
                decreases n - i,
            {
                if self.player_active[i] {
                    w = i;
                    found = true;
                }
                i = i + 1;
            }
            proof {
                if !found {
                    lemma_count_zero(self.player_active@);
                }
            }
            winner = w;
        } else {
            let ranks = self.compute_ranks();
            proof {
                let j = choose|j: int| 0 <= j < self.player_active@.len()
                    && self.player_active@[j];
                lemma_count_zero(self.player_active@);
                assert(count_true(self.player_active@) >= 1);
                assert(has_true(self.player_active@));
                let jj = choose|j: int|
                    0 <= j < self.player_active@.len() && self.player_active@[j];
                assert(seat_ranks(*self)[jj] is Some);
            }
            winner = crate::cards::winning_seat(&ranks);
        }
        proof {
            lemma_sum_elem_le(self.stacks@, winner as int);
            lemma_sum_nonneg(self.stacks@);
        }
        let stack = self.stacks[winner];
        self.stacks.set(winner, stack + self.total_pot);
        proof {
            lemma_sum_update(g.stacks@, winner as int, (g.stacks@[winner as int]
                + g.total_pot) as u64);
        }
        self.total_pot = 0;
        self.round = Round::Complete;
        proof {
            assert(complete_winner(g, winner as int));
        }
    }
}

/// The seven showdown cards of a live seat are distinct: they sit at
/// distinct positions of the distinct-card deck.
pub proof fn lemma_showdown_distinct(g: Game, i: int)
    requires
        g.lens_ok(),
        g.cards_ok(),
        g.board@.len() == 5,
        0 <= i < g.n(),
    ensures
        showdown_cards(g, i).len() == 7,
        distinct_cards(showdown_cards(g, i)),
{
    let s = showdown_cards(g, i);
    let n = g.n();
    assert forall|p: int| 0 <= p < 7 implies valid_card(#[trigger] s[p]) && s[p] == g.deck@[
        deck_pos(n, i, p)
    ] && 0 <= deck_pos(n, i, p) < 52 by {
        if p >= 2 {
            assert(s[p] == g.board@[p - 2]);
        }
    }
    assert forall|p: int, q: int| 0 <= p < q < 7 implies s[p] != s[q] by {
        assert(deck_pos(n, i, p) != deck_pos(n, i, q));
        if s[p] == s[q] {
            assert(g.deck@[deck_pos(n, i, p)] == g.deck@[deck_pos(n, i, q)]);
        }
    }
}

/// Where each showdown card of seat `i` sits in the deck.
pub open spec fn deck_pos(n: int, i: int, p: int) -> int {
    if p == 0 {
        51 - i
    } else if p == 1 {
        51 - n - i
    } else {
        51 - 2 * n - (p - 2)
    }
}

/// The sum of `n` equal stacks.
pub proof fn lemma_sum_const(n: nat, v: ChipInt)
    ensures
        sum_chips(Seq::new(n, |i: int| v)) == n * v,
    decreases n,
{
    let s = Seq::new(n, |i: int| v);
    if n > 0 {
        assert(s.drop_first() =~= Seq::new((n - 1) as nat, |i: int| v));
        lemma_sum_const((n - 1) as nat, v);
        assert(n * v == (n - 1) * v + v) by (nonlinear_arith);
    } else {
        assert(n * v == 0) by (nonlinear_arith)
            requires
                n == 0,
        ;
    }
}

/// A table of `n` seats that are all in the hand counts `n`.
pub proof fn lemma_count_const_true(n: nat)
    ensures
        count_true(Seq::new(n, |i: int| true)) == n,
    decreases n,
{
    let s = Seq::new(n, |i: int| true);
    if n > 0 {
        assert(s.drop_first() =~= Seq::new((n - 1) as nat, |i: int| true));
        lemma_count_const_true((n - 1) as nat);
    }
}

/// The state of the hand right after the blinds are posted: small and big
/// blind sit one and two seats after the dealer, the table bet and the
/// minimum raise equal the big blind, everyone is live and still to act,
/// and the seat after the big blind opens the action.
pub open spec fn preflop_post(g: Game, h: Game) -> bool {
    let n = g.n();
    let sb_seat = seat_after(g.dealer_idx as int, n);
    let bb_seat = seat_after(sb_seat, n);
    &&& h.id == g.id
    &&& h.players == g.players
    &&& h.dealer_idx == g.dealer_idx
    &&& h.small_blind == g.small_blind
    &&& h.big_blind == g.big_blind
    &&& h.hands == g.hands
    &&& h.deck == g.deck
    &&& h.board == g.board
    &&& h.round == Round::Preflop
    &&& h.stacks@ == Seq::new(n as nat, |i: int| DEFAULT_CHIPS).update(
        sb_seat,
        (DEFAULT_CHIPS - g.small_blind) as u64,
    ).update(bb_seat, (DEFAULT_CHIPS - g.big_blind) as u64)
    &&& h.total_pot == g.small_blind + g.big_blind
    &&& h.player_active@ == Seq::new(n as nat, |i: int| true)
    &&& h.round_data.bet == g.big_blind
    &&& h.round_data.min_raise == g.big_blind
    &&& h.round_data.player_bet@ == Seq::new(n as nat, |i: int| 0u64).update(
        sb_seat,
        g.small_blind,
    ).update(bb_seat, g.big_blind)
    &&& h.round_data.needs_action@ == Seq::new(n as nat, |i: int| true)
    &&& h.round_data.to_act_idx as int == seat_after(bb_seat, n)
}

impl Game {
    /// Posts the blinds and opens the preflop betting round.
    fn start_preflop(&mut self)
        requires
            old(self).lens_ok(),
            old(self).cards_ok(),
            old(self).round == Round::Starting,
            old(self).board@.len() == 0,
            1 <= old(self).small_blind <= old(self).big_blind < DEFAULT_CHIPS,
            old(self).stacks@ == Seq::new(old(self).n() as nat, |i: int| DEFAULT_CHIPS),
            old(self).player_active@ == Seq::new(old(self).n() as nat, |i: int| true),
            old(self).round_data.player_bet@ == Seq::new(old(self).n() as nat, |i: int| 0u64),
            old(self).round_data.needs_action@ == Seq::new(old(self).n() as nat, |i: int| true),
            old(self).round_data.bet == 0,
            old(self).round_data.min_raise == old(self).big_blind,
            old(self).total_pot == 0,
        ensures
            preflop_post(*old(self), *final(self)),
            final(self).wf(),
    {
        let ghost g = *self;
        let n = self.players.len();
        proof {
            lemma_sum_const(n as nat, DEFAULT_CHIPS);
            lemma_count_const_true(n as nat);
        }
        self.round = Round::Preflop;
        let sb_seat = if self.dealer_idx + 1 < n {
            self.dealer_idx + 1
        } else {
            self.dealer_idx + 1 - n
        };
        self.round_data.to_act_idx = sb_seat;
        let sb = self.small_blind;
        let bb = self.big_blind;
        let ghost g1 = *self;
        let r1 = self.do_bet_inner(sb, true);
        proof {
            let np = g.n() as nat;
            let all_true = Seq::new(np, |i: int| true);
            assert(all_true.update(sb_seat as int, true) =~= all_true);
            assert(has_true(all_true)) by {
                assert(all_true[0]);
            }
            assert(self.round_data.needs_action@ =~= all_true);
            assert(self.round_data.to_act_idx as int == seat_after(sb_seat as int, g.n()));
        }
        let ghost g2 = *self;
        let r2 = self.do_bet_inner(bb, true);
        proof {
            let np = g.n() as nat;
            let all_true = Seq::new(np, |i: int| true);
            let bb_seat = seat_after(sb_seat as int, g.n());
            assert(all_true.update(bb_seat, true) =~= all_true);
            assert(self.round_data.needs_action@ =~= all_true);
            assert(has_true(all_true)) by {
                assert(all_true[0]);
            }
            assert(self.round_data.to_act_idx as int == seat_after(bb_seat, g.n()));
            assert(self.stacks@ =~= Seq::new(np, |i: int| DEFAULT_CHIPS).update(
                sb_seat as int,
                (DEFAULT_CHIPS - g.small_blind) as u64,
            ).update(bb_seat, (DEFAULT_CHIPS - g.big_blind) as u64));
            assert(self.round_data.player_bet@ =~= Seq::new(np, |i: int| 0u64).update(
                sb_seat as int,
                g.small_blind,
            ).update(bb_seat, g.big_blind));
            lemma_count_const_true(np);
            assert(count_true(self.player_active@) >= 2);
        }
    }

    /// Deals a fresh hand from the given deck: two hole cards per seat in
    /// seat order, every stack at the buy-in, then the blinds posted and
    /// preflop opened. The same deck, dealer and actions always give the
    /// same hand.
    pub fn with_deck(
        id: GameId,
        players: Vec<GamePlayer>,
        dealer_idx: usize,
        small_blind: ChipInt,
        big_blind: ChipInt,
        deck: Vec<u8>,
    ) -> (g: Game)
        requires
            2 <= players@.len() <= 23,
            dealer_idx < players@.len(),
            1 <= small_blind <= big_blind < DEFAULT_CHIPS,
            deck@.len() == 52,
            distinct_cards(deck@),
        ensures
            g.wf(),
            g.id == id,
            g.players == players,
            g.dealer_idx == dealer_idx,
            g.small_blind == small_blind,
            g.big_blind == big_blind,
            g.deck == deck,
            g.round == Round::Preflop,
            g.board@.len() == 0,
            preflop_post(g.with_starting_state(), g),
    {
        let n = players.len();
        let mut hands: Vec<(u8, u8)> = Vec::new();
        let mut i: usize = 0;
        while i < n
            invariant
                i <= n,
                2 <= n == players@.len() <= 23,
                deck@.len() == 52,
                hands@.len() == i,
                forall|k: int|
                    0 <= k < i ==> (#[trigger] hands@[k]).0 == deck@[51 - k] && hands@[k].1
                        == deck@[51 - n - k],
            decreases n - i,
        {
            let c0 = deck[51 - i];
            let c1 = deck[51 - n - i];
            hands.push((c0, c1));
            i = i + 1;
        }
        let mut g = Game {
            id,
            players,
            dealer_idx,
            small_blind,
            big_blind,
            stacks: Game::filled(n, DEFAULT_CHIPS),
            player_active: Game::filled(n, true),
            hands,
            board: Vec::new(),
            deck,
            total_pot: 0,
            round: Round::Starting,
            round_data: RoundData {
                bet: 0,
                min_raise: big_blind,
                player_bet: Game::filled(n, 0u64),
                needs_action: Game::filled(n, true),
                to_act_idx: dealer_idx,
            },
        };
        proof {
            assert(g.with_starting_state() == g);
        }
        g.start_preflop();
        g
    }

    /// This hand as it stood before the blinds were posted.
    pub open spec fn with_starting_state(self) -> Game {
        Game {
            stacks: self.stacks,
            player_active: self.player_active,
            total_pot: self.total_pot,
            round: self.round,
            round_data: self.round_data,
            ..self
        }
    }

    /// Deals a fresh hand from a newly shuffled deck.
    pub fn new(
        id: GameId,
        players: Vec<GamePlayer>,
        dealer_idx: usize,
        small_blind: ChipInt,
        big_blind: ChipInt,
    ) -> (g: Game)
        requires
            2 <= players@.len() <= 23,
            dealer_idx < players@.len(),
            1 <= small_blind <= big_blind < DEFAULT_CHIPS,
        ensures
            g.wf(),
            g.id == id,
            g.players == players,
            g.dealer_idx == dealer_idx,
            g.small_blind == small_blind,
            g.big_blind == big_blind,
            g.round == Round::Preflop,
            g.board@.len() == 0,
            g.total_pot == small_blind + big_blind,
            g.round_data.bet == big_blind,
            g.round_data.min_raise == big_blind,
            g.player_active@ == Seq::new(players@.len(), |i: int| true),
            g.round_data.needs_action@ == Seq::new(players@.len(), |i: int| true),
            g.round_data.to_act_idx as int == seat_after(
                seat_after(seat_after(dealer_idx as int, g.n()), g.n()),
                g.n(),
            ),
            ({
                let sb_seat = seat_after(dealer_idx as int, players@.len() as int);
                let bb_seat = seat_after(sb_seat, players@.len() as int);
                &&& g.stacks@ == Seq::new(players@.len(), |i: int| DEFAULT_CHIPS).update(
                    sb_seat,
                    (DEFAULT_CHIPS - small_blind) as u64,
                ).update(bb_seat, (DEFAULT_CHIPS - big_blind) as u64)
                &&& g.round_data.player_bet@ == Seq::new(players@.len(), |i: int| 0u64).update(
                    sb_seat,
                    small_blind,
                ).update(bb_seat, big_blind)
            }),
    {
        let deck = shuffled_deck();
        let g = Game::with_deck(id, players, dealer_idx, small_blind, big_blind, deck);
        g
    }
}

/// One auto-action by the seat to act, as its flags dictate: a seat with
/// check-fold checks when its round bet matches the table bet and folds
/// otherwise; a seat with call-any (and no check-fold) commits the table
/// bet, or all it has when that is less.
pub open spec fn auto_step(g: Game, h: Game) -> bool {
    let i = g.actor();
    let pb = g.round_data.player_bet@[i];
    let bet = g.round_data.bet;
    &&& g.round.is_open()
    &&& g.round_data.needs_action@[i]
    &&& if g.players@[i].check_fold {
        if pb == bet {
            bet_step_post(g, h, bet as int, false)
        } else {
            fold_step_post(g, h)
        }
    } else if g.players@[i].call_any {
        bet_step_post(g, h, spec_min(bet as int, pb + g.stacks@[i]), false)
    } else {
        false
    }
}

/// One step of driving the hand forward: a hand down to one live seat, or
/// past the river, completes; else the seat to act plays its auto-action;
/// else, with every seat's action settled, the street advances.
pub open spec fn advance_step(g: Game, h: Game) -> bool {
    if count_true(g.player_active@) == 1 || g.round == Round::Showdown {
        complete_post(g, h)
    } else if has_true(g.round_data.needs_action@) {
        auto_step(g, h)
    } else {
        g.round.is_open() && street_step_post(g, h)
    }
}

/// `h` is reached from `g` by exactly `k` of the steps above.
pub open spec fn advance_chain(g: Game, h: Game, k: nat) -> bool
    decreases k,
{
    if k == 0 {
        h == g
    } else {
        exists|m: Game| #[trigger] advance_step(g, m) && advance_chain(m, h, (k - 1) as nat)
    }
}

/// A hand the driver leaves alone: complete, or waiting on a seat that
/// really has to act and carries no auto-action flag.
pub open spec fn settled(g: Game) -> bool {
    ||| g.round == Round::Complete
    ||| {
        let i = g.actor();
        &&& g.round.is_open()
        &&& count_true(g.player_active@) >= 2
        &&& g.round_data.needs_action@[i]
        &&& !g.players@[i].check_fold
        &&& !g.players@[i].call_any
    }
}

/// A step chain grows by one step at its end.
pub proof fn lemma_chain_snoc(g: Game, m: Game, h: Game, k: nat)
    requires
        advance_chain(g, m, k),
        advance_step(m, h),
    ensures
        advance_chain(g, h, (k + 1) as nat),
    decreases k,
{
    if k == 0 {
        assert(advance_chain(h, h, 0));
        assert(advance_step(g, h) && advance_chain(h, h, 0));
    } else {
        let m0 = choose|m0: Game|
            #[trigger] advance_step(g, m0) && advance_chain(m0, m, (k - 1) as nat);
        lemma_chain_snoc(m0, m, h, (k - 1) as nat);
        assert(advance_step(g, m0) && advance_chain(m0, h, k));
    }
}

/// What driving the hand forward guarantees: the result is reached by a
/// chain of the steps of `advance_step` (the auto-actions of the spec's
/// hand engine, street advancement, completion) and is settled. A hand
/// down to one live seat, or past the river, completes with the pot
/// awarded; without auto-action flags the state either stands as it was,
/// or moves exactly one street (completing after the river).
pub open spec fn advance_post(g: Game, h: Game) -> bool {
    &&& settled(h)
    &&& (exists|k: nat| #[trigger] advance_chain(g, h, k))
    &&& h.id == g.id
    &&& h.players == g.players
    &&& h.dealer_idx == g.dealer_idx
    &&& h.small_blind == g.small_blind
    &&& h.big_blind == g.big_blind
    &&& h.hands == g.hands
    &&& h.deck == g.deck
    &&& h.round.num() >= g.round.num()
    &&& h.wf()
    &&& (count_true(g.player_active@) == 1 ==> complete_post(g, h))
    &&& (no_auto_flags(g.players@) && count_true(g.player_active@) >= 2 && has_true(
        g.round_data.needs_action@,
    ) ==> h == g)
    &&& (no_auto_flags(g.players@) && count_true(g.player_active@) >= 2 && !has_true(
        g.round_data.needs_action@,
    ) ==> (if g.round.num() < 4 {
        street_step_post(g, h)
    } else {
        exists|m: Game| #[trigger] street_step_post(g, m) && complete_post(m, h)
    }))
}

impl Game {
    /// Drives the hand forward after an action: runs the next seat's
    /// auto-action if it carries one, advances the street once every seat
    /// has acted, and completes the hand when one seat remains or the
    /// river betting closes.
    fn advance(&mut self)
        requires
            old(self).step_wf(),
            count_true(old(self).player_active@) >= 1,
            has_true(old(self).round_data.needs_action@) ==> old(
                self,
            ).round_data.needs_action@[old(self).actor()],
        ensures
            advance_post(*old(self), *final(self)),
    {
        let ghost g0 = *old(self);
        proof {
            assert(advance_chain(g0, g0, 0));
        }
        loop
            invariant
                g0 == *old(self),
                g0.step_wf(),
                count_true(g0.player_active@) >= 1,
                exists|k: nat| #[trigger] advance_chain(g0, *self, k),
                self.lens_ok(),
                self.cards_ok(),
                self.chips_ok(),
                self.needs_subset_active(),
                self.round.is_open() || self.round == Round::Showdown,
                self.board@.len() == self.round.board_len(),
                count_true(self.player_active@) >= 1,
                has_true(self.round_data.needs_action@)
                    ==> self.round_data.needs_action@[self.actor()],
                self.id == g0.id,
                self.players == g0.players,
                self.dealer_idx == g0.dealer_idx,
                self.small_blind == g0.small_blind,
                self.big_blind == g0.big_blind,
                self.hands == g0.hands,
                self.deck == g0.deck,
                self.round.num() >= g0.round.num(),
                count_true(g0.player_active@) == 1 ==> *self == g0,
                no_auto_flags(g0.players@) && count_true(g0.player_active@) >= 2 ==> (*self == g0
                    || (!has_true(g0.round_data.needs_action@) && street_step_post(g0, *self))),
            decreases 6 - self.round.num(), count_true(self.round_data.needs_action@),
        {
            let active_cnt = Game::count_active(&self.player_active);
            if active_cnt == 1 {
                let ghost pre = *self;
                self.complete_inner();
                proof {
                    let kk = choose|k: nat| #[trigger] advance_chain(g0, pre, k);
                    assert(advance_step(pre, *self));
                    lemma_chain_snoc(g0, pre, *self, kk);
                }
                return ;
            }
            if matches!(self.round, Round::Showdown) {
                let ghost pre = *self;
                self.complete_inner();
                proof {
                    let kk = choose|k: nat| #[trigger] advance_chain(g0, pre, k);
                    assert(advance_step(pre, *self));
                    lemma_chain_snoc(g0, pre, *self, kk);
                }
                return ;
            }
            let ta = self.round_data.to_act_idx;
            if !self.round_data.needs_action[ta] {
                proof {
                    if has_true(self.round_data.needs_action@) {
                        assert(self.round_data.needs_action@[self.actor()]);
                    }
                }
                let ghost pre = *self;
                self.advance_street();
                proof {
                    let kk = choose|k: nat| #[trigger] advance_chain(g0, pre, k);
                    assert(advance_step(pre, *self));
                    lemma_chain_snoc(g0, pre, *self, kk);
                }
                continue ;
            }
            if self.players[ta].check_fold {
                proof {
                    assert(!no_auto_flags(g0.players@)) by {
                        assert(g0.players@[ta as int].check_fold);
                    }
                }
                let ghost pre = *self;
                if self.round_data.player_bet[ta] == self.round_data.bet {
                    let amount = self.round_data.bet;
                    let r = self.do_bet_inner(amount, false);
                    proof {
                        if r is Err {
                            assert(bet_valid_spec(pre, amount as int));
                        }
                        assert(self.round_data.bet == pre.round_data.bet);
                        assert(self.round_data.needs_action@
                            == pre.round_data.needs_action@.update(pre.actor(), false));
                        lemma_next_to_act_needs(
                            self.round_data.needs_action@,
                            pre.actor(),
                        );
                        lemma_count_update(
                            pre.round_data.needs_action@,
                            pre.actor(),
                            false,
                        );
                        lemma_count_bounds(self.round_data.needs_action@);
                    }
                } else {
                    self.do_fold_inner();
                    proof {
                        lemma_next_to_act_needs(
                            self.round_data.needs_action@,
                            pre.actor(),
                        );
                        lemma_count_update(
                            pre.round_data.needs_action@,
                            pre.actor(),
                            false,
                        );
                        lemma_count_bounds(self.round_data.needs_action@);
                    }
                }
                proof {
                    let kk = choose|k: nat| #[trigger] advance_chain(g0, pre, k);
                    assert(auto_step(pre, *self));
                    assert(advance_step(pre, *self));
                    lemma_chain_snoc(g0, pre, *self, kk);
                }
                continue ;
            }
            if self.players[ta].call_any {
                proof {
                    assert(!no_auto_flags(g0.players@)) by {
                        assert(g0.players@[ta as int].call_any);
                    }
                }
                let ghost pre = *self;
                let pb = self.round_data.player_bet[ta];
                let stack = self.stacks[ta];
                let reachable = pb + stack;
                let amount = if self.round_data.bet < reachable {
                    self.round_data.bet
                } else {
                    reachable
                };
                let r = self.do_bet_inner(amount, false);
                proof {
                    if r is Err {
                        assert(bet_valid_spec(pre, amount as int));
                    }
                    assert(self.round_data.bet == pre.round_data.bet);
                    assert(self.round_data.needs_action@
                        == pre.round_data.needs_action@.update(pre.actor(), false));
                    lemma_next_to_act_needs(self.round_data.needs_action@, pre.actor());
                    lemma_count_update(pre.round_data.needs_action@, pre.actor(), false);
                    lemma_count_bounds(self.round_data.needs_action@);
                    let kk = choose|k: nat| #[trigger] advance_chain(g0, pre, k);
                    assert(auto_step(pre, *self));
                    assert(advance_step(pre, *self));
                    lemma_chain_snoc(g0, pre, *self, kk);
                }
                continue ;
            }
            return ;
        }
    }
}

impl Game {
    /// The index of the seat whose turn it is.
    pub fn current_player_idx(&self) -> (r: usize)
        ensures
            r == self.round_data.to_act_idx,
    {
        self.round_data.to_act_idx
    }

    /// The player whose turn it is.
    pub fn current_player(&self) -> (r: &Player)
        requires
            self.lens_ok(),
        ensures
            *r == self.players@[self.actor()].info,
    {
        &self.players[self.round_data.to_act_idx].info
    }

    /// Whether it is this player's turn, going by the player id.
    pub fn is_players_turn(&self, player: &Player) -> (r: bool)
        requires
            self.lens_ok(),
        ensures
            r == (self.players@[self.actor()].info.id@ == player.id@),
    {
        self.players[self.round_data.to_act_idx].info.id == player.id
    }

    /// The highest total commitment any seat has made this round.
    pub fn current_bet(&self) -> (r: ChipInt)
        ensures
            r == self.round_data.bet,
    {
        self.round_data.bet
    }

    /// What the given seat has committed this round.
    pub fn players_bet(&self, player_idx: usize) -> (r: ChipInt)
        requires
            player_idx < self.round_data.player_bet@.len(),
        ensures
            r == self.round_data.player_bet@[player_idx as int],
    {
        self.round_data.player_bet[player_idx]
    }

    /// True once the hand is complete.
    pub fn is_over(&self) -> (r: bool)
        ensures
            r == self.is_over_spec(),
    {
        matches!(self.round, Round::Complete)
    }

    /// Each seated player paired with their two hole cards, in seat order.
    pub fn players_hands(&self) -> (r: Vec<(Player, (u8, u8))>)
        requires
            self.lens_ok(),
        ensures
            r@.len() == self.n(),
            forall|i: int|
                0 <= i < self.n() ==> #[trigger] r@[i] == (
                    self.players@[i].info,
                    self.hands@[i],
                ),
    {
        let n = self.players.len();
        let mut r: Vec<(Player, (u8, u8))> = Vec::new();
        let mut i: usize = 0;
        while i < n
            invariant
                i <= n,
                self.lens_ok(),
                n == self.n(),
                r@.len() == i,
                forall|k: int|
                    0 <= k < i ==> #[trigger] r@[k] == (self.players@[k].info, self.hands@[k]),
            decreases n - i,
        {
            let p = Player {
                id: self.players[i].info.id.clone(),
                username: self.players[i].info.username.clone(),
            };
            let h = self.hands[i];
            r.push((p, h));
            i = i + 1;
        }
        r
    }

    /// A bet by the seat whose turn it is: `amount` is the total the seat
    /// commits for this round. On success the chips move, the turn passes,
    /// auto-actions run, and the street advances or the hand completes as
    /// the action settles; an amount that neither calls, raises by the
    /// minimum, nor moves the seat all-in is refused unchanged.
    pub fn bet(&mut self, amount: ChipInt) -> (r: Result<ChipInt, PokerError>)
        requires
            old(self).wf(),
            !old(self).is_over_spec(),
        ensures
            r is Ok <==> bet_valid_spec(*old(self), amount as int),
            r is Err ==> *final(self) == *old(self) && r == Err::<u64, PokerError>(
                PokerError::InvalidBet,
            ),
            r is Ok ==> r == Ok::<u64, PokerError>(
                bet_extra_spec(*old(self), amount as int) as u64,
            ) && exists|m: Game|
                #[trigger] bet_step_post(*old(self), m, amount as int, false) && advance_post(
                    m,
                    *final(self),
                ),
            final(self).wf(),
    {
        proof {
            assert(old(self).round_data.needs_action@[old(self).actor()]);
        }
        let r = self.do_bet_inner(amount, false);
        match r {
            Ok(extra) => {
                let ghost mid = *self;
                proof {
                    lemma_next_to_act_needs(
                        self.round_data.needs_action@,
                        old(self).actor(),
                    );
                }
                self.advance();
                proof {
                    assert(bet_step_post(*old(self), mid, amount as int, false)
                        && advance_post(mid, *self));
                }
                Ok(extra)
            },
            Err(e) => Err(e),
        }
    }

    /// The seat whose turn it is folds: it leaves the hand, and the action
    /// settles as after a bet.
    pub fn fold(&mut self)
        requires
            old(self).wf(),
            !old(self).is_over_spec(),
        ensures
            exists|m: Game|
                #[trigger] fold_step_post(*old(self), m) && advance_post(m, *final(self)),
            final(self).wf(),
    {
        proof {
            assert(old(self).round_data.needs_action@[old(self).actor()]);
        }
        self.do_fold_inner();
        let ghost mid = *self;
        proof {
            lemma_next_to_act_needs(self.round_data.needs_action@, old(self).actor());
        }
        self.advance();
        proof {
            assert(fold_step_post(*old(self), mid) && advance_post(mid, *self));
        }
    }
}

/// If nothing was true before the scan reached `d`, the scan from distance
/// one lands where the scan from `d` does.
pub proof fn lemma_next_from_skip(needs: Seq<bool>, from: int, d: int)
    requires
        0 <= from < needs.len(),
        1 <= d <= needs.len(),
        forall|e: int| 1 <= e < d ==> !(#[trigger] needs[wrap(from + e, needs.len() as int)]),
    ensures
        next_from(needs, from, 1) == next_from(needs, from, d),
    decreases d,
{
    if d > 1 {
        lemma_next_from_skip(needs, from, d - 1);
    }
}

} // verus!
