use vstd::prelude::*;
use crate::card::{Card, copy_cards};
use crate::containers::CardOrigin;

verus! {

/// The stock (face down) and the waste (face up, top at the end). The waste
/// is a card origin; `take` turns the next stock card onto it.
///
/// Each `take` records in `flips` whether it first turned the waste over to
/// form a new stock, so that `undo_take` can turn it back.
#[derive(Debug, Clone)]
pub struct Deck {
    stock: Vec<Card>,
    waste: Vec<Card>,
    flips: Vec<bool>,
}

/// What the user interface sees of the deck.
#[derive(Debug, Copy, Clone, PartialEq, Eq, Structural)]
pub struct DeckStatus {
    pub cards_on_waste: u32,
    pub cards_on_stock: u32,
    pub top_card_on_waste: Option<Card>,
}

/// The abstract state of a deck.
pub struct DeckView {
    pub stock: Seq<Card>,
    pub waste: Seq<Card>,
    pub flips: Seq<bool>,
}

impl View for Deck {
    type V = DeckView;

    closed spec fn view(&self) -> DeckView {
        DeckView { stock: self.stock@, waste: self.waste@, flips: self.flips@ }
    }
}

/// One take from the stock: an empty stock is first refilled with the waste
/// turned over; then the top stock card, if any, goes onto the waste.
pub open spec fn deck_after_take(d: DeckView) -> DeckView {
    if d.stock.len() == 0 && d.waste.len() > 0 {
        let s = d.waste.reverse();
        DeckView { stock: s.drop_last(), waste: seq![s.last()], flips: d.flips.push(true) }
    } else if d.stock.len() > 0 {
        DeckView {
            stock: d.stock.drop_last(),
            waste: d.waste.push(d.stock.last()),
            flips: d.flips.push(false),
        }
    } else {
        DeckView { stock: d.stock, waste: d.waste, flips: d.flips.push(false) }
    }
}

/// The inverse of a take: the top waste card, if any, goes back onto the
/// stock; then, when the take being undone had turned the waste over and the
/// waste is empty again, the stock is turned back into the waste.
pub open spec fn deck_after_undo_take(d: DeckView) -> DeckView {
    let flag = d.flips.len() > 0 && d.flips.last();
    let flips = if d.flips.len() > 0 {
        d.flips.drop_last()
    } else {
        d.flips
    };
    let stock = if d.waste.len() > 0 {
        d.stock.push(d.waste.last())
    } else {
        d.stock
    };
    let waste = if d.waste.len() > 0 {
        d.waste.drop_last()
    } else {
        d.waste
    };
    if flag && waste.len() == 0 && stock.len() > 0 {
        DeckView { stock: Seq::empty(), waste: stock.reverse(), flips }
    } else {
        DeckView { stock, waste, flips }
    }
}

/// `k` takes in a row.
pub open spec fn deck_after_takes(d: DeckView, k: nat) -> DeckView
    decreases k,
{
    if k == 0 {
        d
    } else {
        deck_after_take(deck_after_takes(d, (k - 1) as nat))
    }
}

/// `k` undos of a take in a row.
pub open spec fn deck_after_undo_takes(d: DeckView, k: nat) -> DeckView
    decreases k,
{
    if k == 0 {
        d
    } else {
        deck_after_undo_takes(deck_after_undo_take(d), (k - 1) as nat)
    }
}

/// The top waste card, alone, may be taken when there is one.
pub open spec fn deck_can_peek(d: DeckView, number: usize) -> bool {
    number == 1 && d.waste.len() > 0
}

/// A single card that was taken goes back on top of the waste.
pub open spec fn deck_after_undo_peek(d: DeckView, cards: Seq<Card>) -> DeckView {
    if cards.len() == 1 {
        DeckView { stock: d.stock, waste: d.waste.push(cards[0]), flips: d.flips }
    } else {
        d
    }
}

/// What the user interface sees of the deck `d`.
pub open spec fn deck_status(d: DeckView) -> DeckStatus {
    DeckStatus {
        cards_on_waste: d.waste.len() as u32,
        cards_on_stock: d.stock.len() as u32,
        top_card_on_waste: if d.waste.len() > 0 {
            Some(d.waste.last())
        } else {
            None
        },
    }
}

/// Undoing a take restores the deck exactly, including a turn-over of the
/// waste.
pub proof fn lemma_undo_take(d: DeckView)
    ensures
        deck_after_undo_take(deck_after_take(d)) == d,
{
    let t = deck_after_take(d);
    let u = deck_after_undo_take(t);
    if d.stock.len() == 0 && d.waste.len() > 0 {
        let s = d.waste.reverse();
        assert(s.drop_last().push(s.last()) =~= s);
        assert(s.reverse() =~= d.waste);
        assert(u.stock =~= d.stock);
    } else if d.stock.len() > 0 {
        assert(d.stock.drop_last().push(d.stock.last()) =~= d.stock);
        assert(d.waste.push(d.stock.last()).drop_last() =~= d.waste);
    }
    assert(t.flips.drop_last() =~= d.flips);
}

/// Taking `k` times and then undoing `k` times restores the deck exactly.
pub proof fn lemma_undo_takes(d: DeckView, k: nat)
    ensures
        deck_after_undo_takes(deck_after_takes(d, k), k) == d,
    decreases k,
{
    if k > 0 {
        let before = deck_after_takes(d, (k - 1) as nat);
        lemma_undo_take(before);
        lemma_undo_takes(d, (k - 1) as nat);
    }
}

/// Moves every card of `from` onto the empty `to`, last card first.
fn turn_over(from: &mut Vec<Card>, to: &mut Vec<Card>)
    requires
        old(to)@.len() == 0,
    ensures
        final(to)@ == old(from)@.reverse(),
        final(from)@.len() == 0,
{
    let ghost w = from@;
    let ghost n = from@.len();
    while from.len() > 0
        invariant
            n == w.len(),
            from@.len() + to@.len() == n,
            from@ == w.subrange(0, from@.len() as int),
            forall|i: int| 0 <= i < to@.len() ==> to@[i] == w[n - 1 - i],
        decreases from@.len(),
    {
        if let Some(card) = from.pop() {
            to.push(card);
        }
    }
    assert(to@ =~= w.reverse());
}

impl Deck {
    /// A deck whose stock holds `cards`, bottom first, after one card was
    /// turned onto the waste.
    pub fn new(cards: &Vec<Card>) -> (r: Deck)
        ensures
            r@ == deck_after_take(DeckView { stock: cards@, waste: Seq::empty(), flips: Seq::empty() }),
    {
        let mut deck = Deck {
            stock: copy_cards(cards, 0, cards.len()),
            waste: Vec::new(),
            flips: Vec::new(),
        };
        assert(cards@.subrange(0, cards@.len() as int) =~= cards@);
        deck.take();
        deck
    }

    /// A deck with the given stock and waste, bottom first.
    pub fn from_parts(stock: Vec<Card>, waste: Vec<Card>) -> (r: Deck)
        ensures
            r@ == (DeckView { stock: stock@, waste: waste@, flips: Seq::empty() }),
    {
        Deck { stock, waste, flips: Vec::new() }
    }

    /// Turns one card from the stock onto the waste, first turning the whole
    /// waste over into the stock when the stock is empty. With both empty
    /// nothing moves.
    pub fn take(&mut self)
        ensures
            final(self)@ == deck_after_take(old(self)@),
    {
        let mut flipped = false;
        if self.stock.is_empty() && !self.waste.is_empty() {
            turn_over(&mut self.waste, &mut self.stock);
            flipped = true;
        }
        if let Some(card) = self.stock.pop() {
            self.waste.push(card);
        }
        self.flips.push(flipped);
        proof {
            let d = old(self)@;
            if d.stock.len() == 0 && d.waste.len() > 0 {
                assert(self.waste@ =~= seq![d.waste.reverse().last()]);
            }
        }
    }

    /// Reverts the last `take`.
    pub fn undo_take(&mut self)
        ensures
            final(self)@ == deck_after_undo_take(old(self)@),
    {
        let mut flipped = false;
        if let Some(flag) = self.flips.pop() {
            flipped = flag;
        }
        if let Some(card) = self.waste.pop() {
            self.stock.push(card);
        }
        if flipped && self.waste.is_empty() && !self.stock.is_empty() {
            turn_over(&mut self.stock, &mut self.waste);
            assert(self.stock@ =~= Seq::<Card>::empty());
        }
    }

    pub fn get_status(&self) -> (r: DeckStatus)
        ensures
            r == deck_status(self@),
    {
        let mut top_card_on_waste = None;
        if !self.waste.is_empty() {
            top_card_on_waste = Some(self.waste[self.waste.len() - 1]);
        }
        DeckStatus {
            cards_on_waste: self.waste.len() as u32,
            cards_on_stock: self.stock.len() as u32,
            top_card_on_waste,
        }
    }
}

impl CardOrigin for Deck {
    open spec fn can_peek(&self, number: usize) -> bool {
        deck_can_peek(self@, number)
    }

    open spec fn peeked(&self, number: usize) -> Seq<Card> {
        seq![self@.waste.last()]
    }

    open spec fn peek_post(&self, number: usize, post: Deck) -> bool {
        post@ == (DeckView { stock: self@.stock, waste: self@.waste.drop_last(), flips: self@.flips })
    }

    open spec fn undo_peek_post(&self, cards: Seq<Card>, post: Deck) -> bool {
        post@ == deck_after_undo_peek(self@, cards)
    }

    fn try_peek(&self, number: usize) -> (r: Option<Vec<Card>>) {
        if number == 1 && !self.waste.is_empty() {
            return Some(vec![self.waste[self.waste.len() - 1]]);
        }
        None
    }

    fn peek(&mut self, number: usize) -> (r: Vec<Card>) {
        if number == 1 && !self.waste.is_empty() {
            if let Some(card) = self.waste.pop() {
                return vec![card];
            }
        }
        Vec::new()
    }

    fn undo_peek(&mut self, cards: &Vec<Card>) {
        if cards.len() == 1 {
            self.waste.push(cards[0]);
        }
    }
}

} // verus!
