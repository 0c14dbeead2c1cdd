//! The laws of the engine: properties that hold of every hand and every
//! update, proved from the contracts of the modules they relate.

use vstd::prelude::*;

use crate::cards::valid_card;
use crate::game::{
    advance_post, complete_post, complete_winner, count_true, lemma_count_two, lemma_sum_elem_le,
    lemma_sum_nonneg, street_step_post, sum_chips, Game, Round,
};
use crate::messages::{lemma_set_indices_contains, public_state_of, PublicGameState};
use crate::player::Player;
use crate::room::{no_actions, sit_post, RoomCore, RoomOutcome};
use crate::table::{next_dealer_spec, Table};
use crate::DEFAULT_CHIPS;

verus! {

/// Chip conservation: at every point of a hand, the stacks and the pot
/// together hold exactly the chips the seats brought in; once the hand
/// completes and the pot is awarded, the stacks alone hold them.
pub proof fn lemma_chip_conservation(g: Game)
    requires
        g.wf(),
    ensures
        sum_chips(g.stacks@) + g.total_pot == g.n() * DEFAULT_CHIPS,
        g.is_over_spec() ==> sum_chips(g.stacks@) == g.n() * DEFAULT_CHIPS,
{
}

/// At most one seat is live when a count of one is observed.
pub proof fn lemma_count_one_unique(s: Seq<bool>, i: int, j: int)
    requires
        count_true(s) == 1,
        0 <= i < s.len(),
        0 <= j < s.len(),
        s[i],
        s[j],
    ensures
        i == j,
{
    if i < j {
        lemma_count_two(s, i, j);
    } else if j < i {
        lemma_count_two(s, j, i);
    }
}

/// Every public game update is sound: the seat shown to act is among the
/// seats still to act this round, no seat's round bet exceeds the call
/// target, the call target is the table bet, the minimum raise is at
/// least the big blind, and the pot is exactly the chips committed so far
/// this hand.
pub proof fn lemma_game_update_invariants(g: Game, s: PublicGameState)
    requires
        g.wf(),
        !g.is_over_spec(),
        public_state_of(g, s),
    ensures
        s.round_active_players@.contains(s.current_player_idx),
        forall|i: int| 0 <= i < s.bets@.len() ==> #[trigger] s.bets@[i] <= s.to_call,
        s.to_call == g.round_data.bet,
        s.min_raise >= g.big_blind,
        s.pot == g.n() * DEFAULT_CHIPS - sum_chips(s.stacks@),
{
    lemma_set_indices_contains(
        g.round_data.needs_action@,
        g.round_data.to_act_idx as int,
    );
}

/// While a round is open no seat has committed more than the table bet,
/// and a round transition opens with every round bet at zero.
pub proof fn lemma_round_bets_bounded(g: Game, h: Game)
    requires
        g.wf(),
        street_step_post(g, h),
    ensures
        forall|i: int|
            0 <= i < g.n() ==> #[trigger] g.round_data.player_bet@[i] <= g.round_data.bet,
        forall|i: int| 0 <= i < g.n() ==> #[trigger] h.round_data.player_bet@[i] == 0,
{
}

/// A hand with only one live seat completes immediately, and that seat is
/// awarded the entire pot.
pub proof fn lemma_single_seat_completes(g: Game, h: Game)
    requires
        g.lens_ok(),
        g.chips_ok(),
        count_true(g.player_active@) == 1,
        advance_post(g, h),
    ensures
        h.round == Round::Complete,
        h.total_pot == 0,
        forall|w: int|
            0 <= w < g.n() && g.player_active@[w] ==> h.stacks@[w] == g.stacks@[w] + g.total_pot,
{
    let w2 = choose|w: int|
        #[trigger] complete_winner(g, w) && h.stacks@ == g.stacks@.update(
            w,
            (g.stacks@[w] + g.total_pot) as u64,
        );
    assert forall|w: int|
        0 <= w < g.n() && g.player_active@[w] implies h.stacks@[w] == g.stacks@[w]
        + g.total_pot by {
        lemma_count_one_unique(g.player_active@, w, w2);
        lemma_sum_elem_le(g.stacks@, w);
        lemma_sum_nonneg(g.stacks@);
    }
}

/// Every hand deals each seat exactly two hole cards, all of them valid
/// cards of the one deck and no card dealt to two places.
pub proof fn lemma_dealt_hands_distinct(g: Game)
    requires
        g.lens_ok(),
        g.cards_ok(),
    ensures
        g.hands@.len() == g.n(),
        forall|i: int|
            0 <= i < g.n() ==> valid_card((#[trigger] g.hands@[i]).0) && valid_card(
                g.hands@[i].1,
            ),
        forall|i: int, j: int|
            0 <= i < g.n() && 0 <= j < g.n() ==> (#[trigger] g.hands@[i]).0 != (
            #[trigger] g.hands@[j]).1,
        forall|i: int, j: int|
            0 <= i < g.n() && 0 <= j < g.n() && i != j ==> (#[trigger] g.hands@[i]).0 != (
            #[trigger] g.hands@[j]).0 && g.hands@[i].1 != g.hands@[j].1,
{
    let n = g.n();
    let deck = g.deck@;
    assert forall|i: int|
        0 <= i < n implies valid_card((#[trigger] g.hands@[i]).0) && valid_card(
        g.hands@[i].1,
    ) by {
        assert(valid_card(deck[51 - i]));
        assert(valid_card(deck[51 - n - i]));
    }
    assert forall|i: int, j: int|
        0 <= i < n && 0 <= j < n implies (#[trigger] g.hands@[i]).0 != (
    #[trigger] g.hands@[j]).1 by {
        assert(deck[51 - n - j] != deck[51 - i]);
    }
    assert forall|i: int, j: int|
        0 <= i < n && 0 <= j < n && i != j implies (#[trigger] g.hands@[i]).0 != (
    #[trigger] g.hands@[j]).0 && g.hands@[i].1 != g.hands@[j].1 by {
        if i < j {
            assert(deck[51 - j] != deck[51 - i]);
            assert(deck[51 - n - j] != deck[51 - n - i]);
        } else {
            assert(deck[51 - i] != deck[51 - j]);
            assert(deck[51 - n - i] != deck[51 - n - j]);
        }
    }
}

/// A sit at a full table is refused with the room untouched: no seating
/// broadcast, no private deal, no timer change, and no hand started.
pub proof fn lemma_table_full_rejected(c1: RoomCore, c2: RoomCore, player: Player, o: RoomOutcome)
    requires
        sit_post(c1, c2, player, o),
        c1.table.players@.len() >= c1.table.config.max_players,
    ensures
        o.reply is Err,
        c2 == c1,
        no_actions(o),
{
}

/// The dealer button moves exactly one seat, modulo the seats dealt into
/// the next hand, between consecutive hands at the same table.
pub proof fn lemma_dealer_rotation(t: Table, g0: Game, m: int)
    requires
        t.game == Some(g0),
        m > 0,
    ensures
        next_dealer_spec(t, m) == (g0.dealer_idx + 1) % m,
        0 <= next_dealer_spec(t, m) < m,
{
}

} // verus!
