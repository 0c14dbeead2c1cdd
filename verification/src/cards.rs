//! Card and hand-rank model.
//!
//! A card is a code below 52: `suit * 13 + value`, with values 0 (two) to
//! 12 (ace) and suits 0 to 3. A `HandRank` orders the best five-card hand
//! that a set of cards contains: first by class, then by the class-relative
//! strength. The shuffle and the ranking themselves are done by an outside
//! card library behind trusted wrappers; everything around them is verified.

use vstd::prelude::*;

verus! {

use crate::cards::HandRank::{
    Flush,
    FourOfAKind,
    FullHouse,
    HighCard,
    OnePair,
    Straight,
    StraightFlush,
    ThreeOfAKind,
    TwoPair,
};

/// True of a valid card code.
pub open spec fn valid_card(c: u8) -> bool {
    c < 52
}

/// True when every entry of `s` is a valid card and no card repeats.
pub open spec fn distinct_cards(s: Seq<u8>) -> bool {
    &&& forall|i: int| 0 <= i < s.len() ==> valid_card(#[trigger] s[i])
    &&& forall|i: int, j: int| 0 <= i < j < s.len() ==> s[i] != s[j]
}

/// The strength class of a five-card poker hand, weakest first, with the
/// class-relative strength inside.
#[derive(Debug, Clone, Copy, PartialEq, Eq)]
pub enum HandRank {
    HighCard(u32),
    OnePair(u32),
    TwoPair(u32),
    ThreeOfAKind(u32),
    Straight(u32),
    Flush(u32),
    FullHouse(u32),
    FourOfAKind(u32),
    StraightFlush(u32),
}

impl HandRank {
    /// The position of this rank's class, weakest class first.
    pub open spec fn class_spec(&self) -> int {
        match self {
            HandRank::HighCard(_) => 0,
            HandRank::OnePair(_) => 1,
            HandRank::TwoPair(_) => 2,
            HandRank::ThreeOfAKind(_) => 3,
            HandRank::Straight(_) => 4,
            HandRank::Flush(_) => 5,
            HandRank::FullHouse(_) => 6,
            HandRank::FourOfAKind(_) => 7,
            HandRank::StraightFlush(_) => 8,
        }
    }

    /// The strength of this rank inside its class.
    pub open spec fn strength_spec(&self) -> u32 {
        match self {
            HandRank::HighCard(s) => *s,
            HandRank::OnePair(s) => *s,
            HandRank::TwoPair(s) => *s,
            HandRank::ThreeOfAKind(s) => *s,
            HandRank::Straight(s) => *s,
            HandRank::Flush(s) => *s,
            HandRank::FullHouse(s) => *s,
            HandRank::FourOfAKind(s) => *s,
            HandRank::StraightFlush(s) => *s,
        }
    }

    /// The position of this rank's class, weakest class first.
    pub fn class(&self) -> (r: u8)
        ensures
            r as int == self.class_spec(),
    {
        match self {
            HandRank::HighCard(_) => 0,
            HandRank::OnePair(_) => 1,
            HandRank::TwoPair(_) => 2,
            HandRank::ThreeOfAKind(_) => 3,
            HandRank::Straight(_) => 4,
            HandRank::Flush(_) => 5,
            HandRank::FullHouse(_) => 6,
            HandRank::FourOfAKind(_) => 7,
            HandRank::StraightFlush(_) => 8,
        }
    }

    /// The strength of this rank inside its class.
    pub fn strength(&self) -> (r: u32)
        ensures
            r == self.strength_spec(),
    {
        match self {
            HandRank::HighCard(s) => *s,
            HandRank::OnePair(s) => *s,
            HandRank::TwoPair(s) => *s,
            HandRank::ThreeOfAKind(s) => *s,
            HandRank::Straight(s) => *s,
            HandRank::Flush(s) => *s,
            HandRank::FullHouse(s) => *s,
            HandRank::FourOfAKind(s) => *s,
            HandRank::StraightFlush(s) => *s,
        }
    }

    /// Ranks order by class, then by strength inside the class.
    pub open spec fn le_spec(self, other: HandRank) -> bool {
        ||| self.class_spec() < other.class_spec()
        ||| (self.class_spec() == other.class_spec() && self.strength_spec()
            <= other.strength_spec())
    }

    /// True when `self` is no stronger than `other`.
    pub fn le(&self, other: &HandRank) -> (r: bool)
        ensures
            r == self.le_spec(*other),
    {
        let c1 = self.class();
        let c2 = other.class();
        if c1 < c2 {
            true
        } else if c1 == c2 {
            self.strength() <= other.strength()
        } else {
            false
        }
    }
}

/// What the outside ranking library returns for a sequence of card codes:
/// the rank of the best five-card hand among them. The result depends on
/// the card codes alone.
pub uninterp spec fn rank_of(cards: Seq<u8>) -> HandRank;

/// Relies on rs_poker's `Rankable::rank` for `Vec<Card>`: the best
/// five-card rank of the seven cards handed in, a pure function of the
/// card codes.
#[verifier::external_body]
pub fn rank_seven(cards: &Vec<u8>) -> (r: HandRank)
    requires
        cards@.len() == 7,
        distinct_cards(cards@),
    ensures
        r == rank_of(cards@),
{
    let hand: Vec<rs_poker::core::Card> = cards.iter().map(|c| (*c).into()).collect();
    match rs_poker::core::Rankable::rank(&hand) {
        rs_poker::core::Rank::HighCard(s) => HighCard(s),
        rs_poker::core::Rank::OnePair(s) => OnePair(s),
        rs_poker::core::Rank::TwoPair(s) => TwoPair(s),
        rs_poker::core::Rank::ThreeOfAKind(s) => ThreeOfAKind(s),
        rs_poker::core::Rank::Straight(s) => Straight(s),
        rs_poker::core::Rank::Flush(s) => Flush(s),
        rs_poker::core::Rank::FullHouse(s) => FullHouse(s),
        rs_poker::core::Rank::FourOfAKind(s) => FourOfAKind(s),
        rs_poker::core::Rank::StraightFlush(s) => StraightFlush(s),
    }
}

/// Relies on rs_poker's `FlatDeck::default`: a standard 52-card deck in a
/// uniformly random order. Only what holds of every outcome is stated: the
/// deck has 52 distinct valid card codes.
#[verifier::external_body]
pub fn shuffled_deck() -> (r: Vec<u8>)
    ensures
        r@.len() == 52,
        distinct_cards(r@),
{
    let deck = rs_poker::core::FlatDeck::default();
    deck[..].iter().map(|c| u8::from(*c)).collect()
}

/// The seat whose rank beats every other contender, with ties going to the
/// lowest-indexed seat among the strongest.
pub open spec fn is_winning_seat(ranks: Seq<Option<HandRank>>, w: int) -> bool {
    &&& 0 <= w < ranks.len()
    &&& ranks[w] is Some
    &&& forall|j: int|
        0 <= j < ranks.len() && #[trigger] ranks[j] is Some ==> ranks[j]->0.le_spec(
            ranks[w]->0,
        )
    &&& forall|j: int|
        0 <= j < w && #[trigger] ranks[j] is Some ==> !ranks[w]->0.le_spec(ranks[j]->0)
}

/// Picks the winning seat among the contenders: the strongest rank, with
/// ties broken towards the lowest seat index. `None` marks a seat that is
/// not in contention.
pub fn winning_seat(ranks: &Vec<Option<HandRank>>) -> (r: usize)
    requires
        exists|i: int| 0 <= i < ranks@.len() && #[trigger] ranks@[i] is Some,
    ensures
        is_winning_seat(ranks@, r as int),
{
    let n = ranks.len();
    let mut best: Option<(usize, HandRank)> = None;
    let mut i: usize = 0;
    while i < n
        invariant
            0 < n == ranks@.len(),
            i <= n,
            match best {
                None => forall|j: int| 0 <= j < i ==> #[trigger] ranks@[j] is None,
                Some((w, rk)) => {
                    &&& 0 <= w < i
                    &&& ranks@[w as int] == Some(rk)
                    &&& forall|j: int|
                        0 <= j < i && #[trigger] ranks@[j] is Some ==> ranks@[j]->0.le_spec(rk)
                    &&& forall|j: int|
                        0 <= j < w && #[trigger] ranks@[j] is Some ==> !rk.le_spec(ranks@[j]->0)
                },
            },
        decreases n - i,
    {
        match ranks[i] {
            None => {},
            Some(rk) => {
                match best {
                    None => {
                        best = Some((i, rk));
                    },
                    Some((_, cur)) => {
                        if !rk.le(&cur) {
                            best = Some((i, rk));
                        }
                    },
                }
            },
        }
        i = i + 1;
    }
    match best {
        Some((w, _)) => w,
        None => 0,
    }
}

} // verus!
