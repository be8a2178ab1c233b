use vstd::prelude::*;

verus! {

/// The four suits of the French deck.
#[derive(Debug, Copy, Clone, PartialEq, Eq, Structural)]
pub enum CardSuit {
    CLUBS,
    DIAMONDS,
    HEARTS,
    SPADES,
}

/// The thirteen ranks, from Ace (1) to King (13).
#[derive(Debug, Copy, Clone, PartialEq, Eq, Structural)]
pub enum CardRank {
    ACE,
    TWO,
    THREE,
    FOUR,
    FIVE,
    SIX,
    SEVEN,
    EIGHT,
    NINE,
    TEN,
    JACK,
    QUEEN,
    KING,
}

/// A playing card: an immutable suit and rank pair.
#[derive(Debug, Copy, Clone, PartialEq, Eq, Structural)]
pub struct Card {
    pub suit: CardSuit,
    pub rank: CardRank,
}

/// Diamonds and Hearts are red; Clubs and Spades are black.
pub open spec fn suit_is_red(s: CardSuit) -> bool {
    s == CardSuit::DIAMONDS || s == CardSuit::HEARTS
}

/// The numeric value of a rank: Ace is 1, King is 13.
pub open spec fn rank_value(r: CardRank) -> int {
    match r {
        CardRank::ACE => 1,
        CardRank::TWO => 2,
        CardRank::THREE => 3,
        CardRank::FOUR => 4,
        CardRank::FIVE => 5,
        CardRank::SIX => 6,
        CardRank::SEVEN => 7,
        CardRank::EIGHT => 8,
        CardRank::NINE => 9,
        CardRank::TEN => 10,
        CardRank::JACK => 11,
        CardRank::QUEEN => 12,
        CardRank::KING => 13,
    }
}

/// `second` may lie on `first` in a descending run: one rank lower and of
/// the other colour.
pub open spec fn alternate_descending(first: Card, second: Card) -> bool {
    rank_value(second.rank) + 1 == rank_value(first.rank) && suit_is_red(first.suit)
        != suit_is_red(second.suit)
}

impl CardSuit {
    pub fn is_red(&self) -> (r: bool)
        ensures
            r == suit_is_red(*self),
    {
        match self {
            CardSuit::DIAMONDS | CardSuit::HEARTS => true,
            CardSuit::CLUBS | CardSuit::SPADES => false,
        }
    }

    /// Every suit, once, in declaration order.
    pub fn all() -> (r: Vec<CardSuit>)
        ensures
            r@ == seq![CardSuit::CLUBS, CardSuit::DIAMONDS, CardSuit::HEARTS, CardSuit::SPADES],
    {
        vec![CardSuit::CLUBS, CardSuit::DIAMONDS, CardSuit::HEARTS, CardSuit::SPADES]
    }
}

impl CardRank {
    pub fn value(&self) -> (r: u32)
        ensures
            r == rank_value(*self),
    {
        match self {
            CardRank::ACE => 1,
            CardRank::TWO => 2,
            CardRank::THREE => 3,
            CardRank::FOUR => 4,
            CardRank::FIVE => 5,
            CardRank::SIX => 6,
            CardRank::SEVEN => 7,
            CardRank::EIGHT => 8,
            CardRank::NINE => 9,
            CardRank::TEN => 10,
            CardRank::JACK => 11,
            CardRank::QUEEN => 12,
            CardRank::KING => 13,
        }
    }

    /// Every rank, once, from Ace to King.
    pub fn all() -> (r: Vec<CardRank>)
        ensures
            r@.len() == 13,
            forall|i: int| 0 <= i < 13 ==> rank_value(#[trigger] r@[i]) == i + 1,
    {
        vec![
            CardRank::ACE,
            CardRank::TWO,
            CardRank::THREE,
            CardRank::FOUR,
            CardRank::FIVE,
            CardRank::SIX,
            CardRank::SEVEN,
            CardRank::EIGHT,
            CardRank::NINE,
            CardRank::TEN,
            CardRank::JACK,
            CardRank::QUEEN,
            CardRank::KING,
        ]
    }
}

impl Card {
    /// Whether `second` can be laid on `first` in a descending run of
    /// alternating colours.
    pub fn check_alternate_colors_and_descending_rank(first: Card, second: Card) -> (r: bool)
        ensures
            r == alternate_descending(first, second),
    {
        second.rank.value() + 1 == first.rank.value() && first.suit.is_red()
            != second.suit.is_red()
    }
}

/// The cards of `v` from index `start` up to, not including, `end`.
pub fn copy_cards(v: &Vec<Card>, start: usize, end: usize) -> (r: Vec<Card>)
    requires
        start <= end <= v@.len(),
    ensures
        r@ == v@.subrange(start as int, end as int),
{
    let mut r: Vec<Card> = Vec::new();
    let mut i: usize = start;
    while i < end
        invariant
            start <= i <= end <= v@.len(),
            r@ == v@.subrange(start as int, i as int),
        decreases end - i,
    {
        r.push(v[i]);
        i += 1;
        assert(r@ =~= v@.subrange(start as int, i as int));
    }
    r
}

/// Puts the cards of `src` on top of `dst`, in order.
pub fn append_cards(dst: &mut Vec<Card>, src: &Vec<Card>)
    ensures
        final(dst)@ == old(dst)@ + src@,
{
    let mut i: usize = 0;
    while i < src.len()
        invariant
            i <= src@.len(),
            dst@ == old(dst)@ + src@.subrange(0, i as int),
        decreases src@.len() - i,
    {
        dst.push(src[i]);
        i += 1;
        assert(dst@ =~= old(dst)@ + src@.subrange(0, i as int));
    }
    assert(src@.subrange(0, src@.len() as int) =~= src@);
}

} // verus!
