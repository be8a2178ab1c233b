use vstd::prelude::*;
use crate::card::{Card, CardRank, alternate_descending, copy_cards, append_cards};
use crate::containers::{CardOrigin, CardDestination};

verus! {

/// A tableau column dealt as a cascade: face-down `hidden` cards under a
/// face-up `visible` run of alternating colours and descending ranks.
///
/// Each successful take records in `unhid` whether it turned a hidden card
/// face up, so that its undo can turn that card back.
#[derive(Debug, Clone)]
pub struct Foundation {
    hidden: Vec<Card>,
    visible: Vec<Card>,
    unhid: Vec<bool>,
}

/// What the user interface sees of a foundation.
#[derive(Debug, Clone, PartialEq)]
pub struct FoundationStatus {
    pub num_hidden: u32,
    pub visible: Vec<Card>,
}

/// The abstract state of a foundation.
pub struct FoundationView {
    pub hidden: Seq<Card>,
    pub visible: Seq<Card>,
    pub unhid: Seq<bool>,
}

/// `s` shows the foundation `f`.
pub open spec fn foundation_status_matches(s: FoundationStatus, f: FoundationView) -> bool {
    s.num_hidden == f.hidden.len() as u32 && s.visible@ == f.visible
}

impl View for Foundation {
    type V = FoundationView;

    closed spec fn view(&self) -> FoundationView {
        FoundationView { hidden: self.hidden@, visible: self.visible@, unhid: self.unhid@ }
    }
}

/// Any positive number of visible cards may be taken.
pub open spec fn foundation_can_peek(f: FoundationView, number: usize) -> bool {
    0 < number <= f.visible.len()
}

/// The top `number` visible cards, bottom to top.
pub open spec fn foundation_peeked(f: FoundationView, number: usize) -> Seq<Card> {
    f.visible.subrange(f.visible.len() - number, f.visible.len() as int)
}

/// After a take: when no visible card is left and one is hidden, the top
/// hidden card turns face up, and the take records whether that happened.
pub open spec fn foundation_after_peek(f: FoundationView, number: usize) -> FoundationView {
    let rest = f.visible.subrange(0, f.visible.len() - number);
    if rest.len() == 0 && f.hidden.len() > 0 {
        FoundationView {
            hidden: f.hidden.drop_last(),
            visible: seq![f.hidden.last()],
            unhid: f.unhid.push(true),
        }
    } else {
        FoundationView { hidden: f.hidden, visible: rest, unhid: f.unhid.push(false) }
    }
}

/// After `cards` are put back: when the take being undone had turned a card
/// face up and that card is the only visible one, it is hidden again; then
/// `cards` go on top of the visible run.
pub open spec fn foundation_after_undo_peek(f: FoundationView, cards: Seq<Card>) -> FoundationView {
    let flag = f.unhid.len() > 0 && f.unhid.last();
    let unhid = if f.unhid.len() > 0 {
        f.unhid.drop_last()
    } else {
        f.unhid
    };
    if flag && f.visible.len() == 1 {
        FoundationView { hidden: f.hidden.push(f.visible[0]), visible: cards, unhid }
    } else {
        FoundationView { hidden: f.hidden, visible: f.visible + cards, unhid }
    }
}

/// A non-empty run is accepted on an empty foundation when it starts with a
/// King, otherwise when its first card lies on the top card: one rank lower,
/// other colour.
pub open spec fn foundation_can_poke(f: FoundationView, cards: Seq<Card>) -> bool {
    &&& cards.len() > 0
    &&& if f.visible.len() == 0 {
        cards[0].rank == CardRank::KING
    } else {
        alternate_descending(f.visible.last(), cards[0])
    }
}

/// An accepted run goes on top of the visible cards.
pub open spec fn foundation_after_poke(f: FoundationView, cards: Seq<Card>) -> FoundationView {
    FoundationView { hidden: f.hidden, visible: f.visible + cards, unhid: f.unhid }
}

/// The last `number` visible cards, or none when there are fewer.
pub open spec fn foundation_unpoked(f: FoundationView, number: usize) -> Seq<Card> {
    if number <= f.visible.len() {
        f.visible.subrange(f.visible.len() - number, f.visible.len() as int)
    } else {
        Seq::empty()
    }
}

/// The foundation after its last `number` visible cards are handed back;
/// unchanged when there are fewer.
pub open spec fn foundation_after_undo_poke(f: FoundationView, number: usize) -> FoundationView {
    if number <= f.visible.len() {
        FoundationView {
            hidden: f.hidden,
            visible: f.visible.subrange(0, f.visible.len() - number),
            unhid: f.unhid,
        }
    } else {
        f
    }
}

/// Taking the only visible card of a foundation that has hidden cards turns
/// exactly one hidden card face up, the top one; undoing that take hides it
/// again and restores the foundation.
pub proof fn lemma_unhide_rehide(f: FoundationView)
    requires
        f.visible.len() == 1,
        f.hidden.len() > 0,
    ensures
        foundation_can_peek(f, 1),
        foundation_after_peek(f, 1).visible == seq![f.hidden.last()],
        foundation_after_peek(f, 1).hidden.len() == f.hidden.len() - 1,
        foundation_after_undo_peek(foundation_after_peek(f, 1), foundation_peeked(f, 1)) == f,
{
    let t = foundation_after_peek(f, 1);
    assert(f.visible.subrange(0, 0).len() == 0);
    assert(t.hidden.push(t.visible[0]) =~= f.hidden);
    assert(foundation_peeked(f, 1) =~= f.visible);
    assert(t.unhid.drop_last() =~= f.unhid);
}

/// What a row of a foundation's column shows, counting rows from the bottom.
#[derive(Debug, Copy, Clone, PartialEq, Eq, Structural)]
pub enum FoundationSlot {
    Hidden,
    Visible(Card),
    Blank,
}

/// Row `index` of the column that `foundation` shows: a hidden card, a
/// visible card, or nothing above the top card.
pub fn foundation_slot(foundation: &FoundationStatus, index: u32) -> (r: FoundationSlot)
    ensures
        index < foundation.num_hidden ==> r == FoundationSlot::Hidden,
        foundation.num_hidden <= index < foundation.num_hidden + foundation.visible@.len()
            ==> r == FoundationSlot::Visible(foundation.visible@[index - foundation.num_hidden]),
        foundation.num_hidden + foundation.visible@.len() <= index ==> r == FoundationSlot::Blank,
{
    if index < foundation.num_hidden {
        FoundationSlot::Hidden
    } else {
        let pos = (index - foundation.num_hidden) as usize;
        if pos < foundation.visible.len() {
            FoundationSlot::Visible(foundation.visible[pos])
        } else {
            FoundationSlot::Blank
        }
    }
}

impl Foundation {
    /// A cascade of `cards`: the last one face up, the others hidden below
    /// it in the given order.
    pub fn new(cards: Vec<Card>) -> (r: Foundation)
        requires
            cards@.len() > 0,
        ensures
            r@.hidden == cards@.drop_last(),
            r@.visible == seq![cards@.last()],
            r@.unhid == Seq::<bool>::empty(),
    {
        let mut hidden = cards;
        let mut visible: Vec<Card> = Vec::new();
        if let Some(card) = hidden.pop() {
            visible.push(card);
        }
        Foundation { hidden, visible, unhid: Vec::new() }
    }

    /// A foundation with the given hidden cards under the given visible run.
    pub fn from_parts(hidden: Vec<Card>, visible: Vec<Card>) -> (r: Foundation)
        ensures
            r@.hidden == hidden@,
            r@.visible == visible@,
            r@.unhid == Seq::<bool>::empty(),
    {
        Foundation { hidden, visible, unhid: Vec::new() }
    }

    fn can_peek(&self, number: usize) -> (r: bool)
        ensures
            r == foundation_can_peek(self@, number),
    {
        number > 0 && number <= self.visible.len()
    }

    pub fn get_status(&self) -> (r: FoundationStatus)
        ensures
            r.num_hidden == self@.hidden.len() as u32,
            r.visible@ == self@.visible,
    {
        FoundationStatus {
            num_hidden: self.hidden.len() as u32,
            visible: copy_cards(&self.visible, 0, self.visible.len()),
        }
    }
}

impl CardOrigin for Foundation {
    open spec fn can_peek(&self, number: usize) -> bool {
        foundation_can_peek(self@, number)
    }

    open spec fn peeked(&self, number: usize) -> Seq<Card> {
        foundation_peeked(self@, number)
    }

    open spec fn peek_post(&self, number: usize, post: Foundation) -> bool {
        post@ == foundation_after_peek(self@, number)
    }

    open spec fn undo_peek_post(&self, cards: Seq<Card>, post: Foundation) -> bool {
        post@ == foundation_after_undo_peek(self@, cards)
    }

    fn try_peek(&self, number: usize) -> (r: Option<Vec<Card>>) {
        if self.can_peek(number) {
            return Some(copy_cards(&self.visible, self.visible.len() - number, self.visible.len()));
        }
        None
    }

    fn peek(&mut self, number: usize) -> (r: Vec<Card>) {
        if self.can_peek(number) {
            let len = self.visible.len();
            let res = copy_cards(&self.visible, len - number, len);
            self.visible.truncate(len - number);
            let mut turned = false;
            if self.visible.is_empty() {
                if let Some(card) = self.hidden.pop() {
                    self.visible.push(card);
                    turned = true;
                }
            }
            self.unhid.push(turned);
            assert(self@.visible =~= foundation_after_peek(old(self)@, number).visible);
            return res;
        }
        Vec::new()
    }

    fn undo_peek(&mut self, cards: &Vec<Card>) {
        let mut turned = false;
        if let Some(flag) = self.unhid.pop() {
            turned = flag;
        }
        if turned && self.visible.len() == 1 {
            if let Some(card) = self.visible.pop() {
                self.hidden.push(card);
            }
        }
        append_cards(&mut self.visible, cards);
        assert(self@.visible =~= foundation_after_undo_peek(old(self)@, cards@).visible);
    }
}

impl CardDestination for Foundation {
    open spec fn can_poke(&self, cards: Seq<Card>) -> bool {
        foundation_can_poke(self@, cards)
    }

    open spec fn poke_post(&self, cards: Seq<Card>, post: Foundation) -> bool {
        post@ == foundation_after_poke(self@, cards)
    }

    open spec fn unpoked(&self, number: usize) -> Seq<Card> {
        foundation_unpoked(self@, number)
    }

    open spec fn undo_poke_post(&self, number: usize, post: Foundation) -> bool {
        post@ == foundation_after_undo_poke(self@, number)
    }

    fn try_poke(&self, cards: &Vec<Card>) -> (r: bool) {
        if cards.is_empty() {
            return false;
        }
        if self.visible.is_empty() {
            return cards[0].rank == CardRank::KING;
        }
        let last_card = self.visible[self.visible.len() - 1];
        Card::check_alternate_colors_and_descending_rank(last_card, cards[0])
    }

    fn poke(&mut self, cards: &Vec<Card>) {
        if self.try_poke(cards) {
            append_cards(&mut self.visible, cards);
        }
    }

    fn undo_poke(&mut self, number: usize) -> (r: Vec<Card>) {
        let len = self.visible.len();
        if number <= len {
            let res = copy_cards(&self.visible, len - number, len);
            self.visible.truncate(len - number);
            return res;
        }
        Vec::new()
    }
}

} // verus!
