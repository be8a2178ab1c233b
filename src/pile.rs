use vstd::prelude::*;
use crate::card::{Card, CardRank, rank_value};
use crate::containers::{CardOrigin, CardDestination};

verus! {

/// A tableau pile: one face-up sequence, top at the end, built up from an Ace
/// by same-suit successors, one card at a time.
#[derive(Debug, Clone)]
pub struct Pile {
    cards: Vec<Card>,
}

/// What the user interface sees of a pile.
#[derive(Debug, Copy, Clone, PartialEq, Eq, Structural)]
pub struct PileStatus {
    pub top_card: Option<Card>,
    pub num_cards: u32,
}

impl View for Pile {
    type V = Seq<Card>;

    closed spec fn view(&self) -> Seq<Card> {
        self.cards@
    }
}

/// A single card may be taken, when there is one.
pub open spec fn pile_can_peek(p: Seq<Card>, number: usize) -> bool {
    number == 1 && p.len() > 0
}

/// A pile accepts exactly one card: an Ace when empty, otherwise the next
/// rank of the top card's suit.
pub open spec fn pile_can_poke(p: Seq<Card>, cards: Seq<Card>) -> bool {
    &&& cards.len() == 1
    &&& if p.len() == 0 {
        cards[0].rank == CardRank::ACE
    } else {
        cards[0].suit == p.last().suit && rank_value(cards[0].rank) == rank_value(p.last().rank)
            + 1
    }
}

/// The cards handed back when the top `number` are asked for: only ever a
/// single top card.
pub open spec fn pile_unpoked(p: Seq<Card>, number: usize) -> Seq<Card> {
    if number == 1 && p.len() > 0 {
        seq![p.last()]
    } else {
        Seq::empty()
    }
}

/// The pile after its top card is handed back, when one was asked for.
pub open spec fn pile_after_undo_poke(p: Seq<Card>, number: usize) -> Seq<Card> {
    if number == 1 && p.len() > 0 {
        p.drop_last()
    } else {
        p
    }
}

/// A single card that was taken goes back on top; any other run is ignored.
pub open spec fn pile_after_undo_peek(p: Seq<Card>, cards: Seq<Card>) -> Seq<Card> {
    if cards.len() == 1 {
        p.push(cards[0])
    } else {
        p
    }
}

/// What the user interface sees of the pile `p`.
pub open spec fn pile_status(p: Seq<Card>) -> PileStatus {
    PileStatus {
        top_card: if p.len() > 0 {
            Some(p.last())
        } else {
            None
        },
        num_cards: p.len() as u32,
    }
}

impl Pile {
    pub fn new() -> (r: Pile)
        ensures
            r@ == Seq::<Card>::empty(),
    {
        Pile { cards: Vec::new() }
    }

    /// A pile holding `cards`, bottom first.
    pub fn from_cards(cards: Vec<Card>) -> (r: Pile)
        ensures
            r@ == cards@,
    {
        Pile { cards }
    }

    pub fn get_status(&self) -> (r: PileStatus)
        ensures
            r == pile_status(self@),
    {
        let mut top_card = None;
        if !self.cards.is_empty() {
            top_card = Some(self.cards[self.cards.len() - 1]);
        }
        PileStatus { top_card, num_cards: self.cards.len() as u32 }
    }
}

impl CardOrigin for Pile {
    open spec fn can_peek(&self, number: usize) -> bool {
        pile_can_peek(self@, number)
    }

    open spec fn peeked(&self, number: usize) -> Seq<Card> {
        seq![self@.last()]
    }

    open spec fn peek_post(&self, number: usize, post: Pile) -> bool {
        post@ == self@.drop_last()
    }

    open spec fn undo_peek_post(&self, cards: Seq<Card>, post: Pile) -> bool {
        post@ == pile_after_undo_peek(self@, cards)
    }

    fn try_peek(&self, number: usize) -> (r: Option<Vec<Card>>) {
        if number == 1 && !self.cards.is_empty() {
            return Some(vec![self.cards[self.cards.len() - 1]]);
        }
        None
    }

    fn peek(&mut self, number: usize) -> (r: Vec<Card>) {
        if number == 1 && !self.cards.is_empty() {
            if let Some(card) = self.cards.pop() {
                return vec![card];
            }
        }
        Vec::new()
    }

    fn undo_peek(&mut self, cards: &Vec<Card>) {
        if cards.len() == 1 {
            self.cards.push(cards[0]);
        }
    }
}

impl CardDestination for Pile {
    open spec fn can_poke(&self, cards: Seq<Card>) -> bool {
        pile_can_poke(self@, cards)
    }

    open spec fn poke_post(&self, cards: Seq<Card>, post: Pile) -> bool {
        post@ == self@.push(cards[0])
    }

    open spec fn unpoked(&self, number: usize) -> Seq<Card> {
        pile_unpoked(self@, number)
    }

    open spec fn undo_poke_post(&self, number: usize, post: Pile) -> bool {
        post@ == pile_after_undo_poke(self@, number)
    }

    fn try_poke(&self, cards: &Vec<Card>) -> (r: bool) {
        if cards.len() != 1 {
            return false;
        }
        let card = cards[0];
        if self.cards.is_empty() {
            return card.rank == CardRank::ACE;
        }
        let last_card = self.cards[self.cards.len() - 1];
        last_card.suit == card.suit && card.rank.value() == last_card.rank.value() + 1
    }

    fn poke(&mut self, cards: &Vec<Card>) {
        if self.try_poke(cards) {
            self.cards.push(cards[0]);
        }
    }

    fn undo_poke(&mut self, number: usize) -> (r: Vec<Card>) {
        let mut res: Vec<Card> = Vec::new();
        if number == 1 && !self.cards.is_empty() {
            if let Some(card) = self.cards.pop() {
                res.push(card);
            }
        }
        res
    }
}

} // verus!
