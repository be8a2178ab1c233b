use vstd::prelude::*;
use rand::seq::SliceRandom;
use crate::card::{Card, CardSuit, CardRank, copy_cards};
use crate::containers::{CardOrigin, CardDestination, CardMover, SimpleCardMover};
use crate::deck::{Deck, DeckStatus, DeckView, deck_status, deck_after_take};
use crate::pile::{Pile, PileStatus, pile_status};
use crate::foundation::{Foundation, FoundationStatus, FoundationView, foundation_status_matches};
use crate::board::{
    Board,
    CardHolder,
    KlondikeAction,
    NUM_PILES,
    NUM_FOUNDATIONS,
    board_shape,
    action_fits,
    card_count,
    piles_total,
    foundations_total,
    move_allowed,
    board_after_move,
    board_after_undo_move,
    board_after_take,
    board_after_undo,
    lemma_undo_move,
    lemma_undo_take_board,
    lemma_move_keeps_card_count,
    lemma_take_keeps_card_count,
};

verus! {

/// Two distinct elements of `vector`, both mutable at once: the one at
/// `first_idx` and the one at `second_idx`. The vector is split between the
/// two indices, and each element is taken from its own part.
pub fn extract_two_mutable_elements<T>(vector: &mut Vec<T>, first_idx: usize, second_idx: usize) -> (r: (&mut T, &mut T))
    requires
        first_idx != second_idx,
        first_idx < old(vector)@.len(),
        second_idx < old(vector)@.len(),
    ensures
        *r.0 == old(vector)@[first_idx as int],
        *r.1 == old(vector)@[second_idx as int],
        final(vector)@ == old(vector)@.update(first_idx as int, *final(r.0)).update(
            second_idx as int,
            *final(r.1),
        ),
{
    let slice = vector.as_mut_slice();
    if first_idx < second_idx {
        let (low, high) = slice.split_at_mut(first_idx + 1);
        let (_between, rest) = high.split_at_mut(second_idx - first_idx - 1);
        let first = low.last_mut().unwrap();
        let second = rest.first_mut().unwrap();
        (first, second)
    } else {
        let (low, high) = slice.split_at_mut(second_idx + 1);
        let (_between, rest) = high.split_at_mut(first_idx - second_idx - 1);
        let second = low.last_mut().unwrap();
        let first = rest.first_mut().unwrap();
        (first, second)
    }
}


/// One game: a deck, the piles, the foundations, and the history of every
/// successful action, newest last.
///
/// `past` holds, for each history entry, the board as it was before that
/// action, so that undoing the entry is known to bring it back.
#[derive(Clone)]
pub struct KlondikeMockable<T: CardMover> {
    deck: Box<Deck>,
    piles: Vec<Pile>,
    foundations: Vec<Foundation>,
    mover: T,
    history: Vec<KlondikeAction>,
    past: Ghost<Seq<Board>>,
}

/// A game played with the plain mover.
pub type Klondike = KlondikeMockable<SimpleCardMover>;

/// What the user interface sees of a game.
#[derive(Debug, Clone, PartialEq)]
pub struct KlondikeStatus {
    pub deck: DeckStatus,
    pub piles: Vec<PileStatus>,
    pub foundations: Vec<FoundationStatus>,
}

/// The full set of 52 cards: for each suit in order, Ace to King.
pub open spec fn full_deck() -> Seq<Card> {
    Seq::new(
        52,
        |i: int| Card { suit: suit_at(i / 13), rank: rank_at(i % 13) },
    )
}

/// The suit of index `i` in the order of `full_deck`.
pub open spec fn suit_at(i: int) -> CardSuit {
    if i == 0 {
        CardSuit::CLUBS
    } else if i == 1 {
        CardSuit::DIAMONDS
    } else if i == 2 {
        CardSuit::HEARTS
    } else {
        CardSuit::SPADES
    }
}

/// The rank of index `i`, counting from Ace.
pub open spec fn rank_at(i: int) -> CardRank {
    if i == 0 {
        CardRank::ACE
    } else if i == 1 {
        CardRank::TWO
    } else if i == 2 {
        CardRank::THREE
    } else if i == 3 {
        CardRank::FOUR
    } else if i == 4 {
        CardRank::FIVE
    } else if i == 5 {
        CardRank::SIX
    } else if i == 6 {
        CardRank::SEVEN
    } else if i == 7 {
        CardRank::EIGHT
    } else if i == 8 {
        CardRank::NINE
    } else if i == 9 {
        CardRank::TEN
    } else if i == 10 {
        CardRank::JACK
    } else if i == 11 {
        CardRank::QUEEN
    } else {
        CardRank::KING
    }
}

/// Where foundation `i` starts in the dealt cards: foundation `i` takes
/// `i + 1` cards.
pub open spec fn cascade_start(i: nat) -> nat
    decreases i,
{
    if i == 0 {
        0
    } else {
        cascade_start((i - 1) as nat) + i
    }
}

/// The cascades fit in the 28 first cards, and take them all.
proof fn lemma_cascade_start(i: nat)
    requires
        i <= NUM_FOUNDATIONS,
    ensures
        i < NUM_FOUNDATIONS ==> cascade_start(i) + i + 1 <= 28,
        i < NUM_FOUNDATIONS ==> cascade_start(i + 1) == cascade_start(i) + i + 1,
        i == NUM_FOUNDATIONS ==> cascade_start(i) == 28,
{
    reveal_with_fuel(cascade_start, 8);
}

/// The board dealt from `cards`: empty piles; foundation `i` with the next
/// `i + 1` cards, the last of them face up; the remaining 24 cards in the
/// deck, one of them already turned onto the waste.
pub open spec fn dealt_board(cards: Seq<Card>) -> Board {
    Board {
        deck: deck_after_take(
            DeckView { stock: cards.subrange(28, 52), waste: Seq::empty(), flips: Seq::empty() },
        ),
        piles: Seq::new(NUM_PILES as nat, |i: int| Seq::<Card>::empty()),
        foundations: Seq::new(
            NUM_FOUNDATIONS as nat,
            |i: int|
                FoundationView {
                    hidden: cards.subrange(
                        cascade_start(i as nat) as int,
                        cascade_start(i as nat) + i,
                    ),
                    visible: seq![cards[cascade_start(i as nat) + i]],
                    unhid: Seq::empty(),
                },
        ),
    }
}

/// Relies on rand's `SliceRandom::shuffle` with `thread_rng()`: the cards
/// end up in a random order, a permutation of the order they had.
#[verifier::external_body]
fn shuffle_cards(cards: &mut Vec<Card>)
    ensures
        final(cards)@.len() == old(cards)@.len(),
        final(cards)@.to_multiset() == old(cards)@.to_multiset(),
{
    let mut rng = rand::thread_rng();
    cards.shuffle(&mut rng);
}

/// Runs the mover forward, or backward when `is_undo`.
fn exec_move_cards<M: CardMover, O: CardOrigin, D: CardDestination>(
    mover: &mut M,
    origin: &mut O,
    destination: &mut D,
    number: usize,
    is_undo: bool,
) -> (r: bool)
    ensures
        is_undo ==> r && old(destination).undo_poke_post(number, *final(destination))
            && old(origin).undo_peek_post(old(destination).unpoked(number), *final(origin)),
        !is_undo ==> r == (old(origin).can_peek(number) && old(destination).can_poke(
            old(origin).peeked(number),
        )),
        !is_undo && r ==> old(origin).peek_post(number, *final(origin)) && old(
            destination,
        ).poke_post(old(origin).peeked(number), *final(destination)),
        !is_undo && !r ==> *final(origin) == *old(origin) && *final(destination) == *old(
            destination,
        ),
{
    if is_undo {
        mover.undo_move_cards(origin, destination, number);
        true
    } else {
        mover.move_cards(origin, destination, number)
    }
}

impl KlondikeMockable<SimpleCardMover> {
    /// A new game, dealt from a shuffled full set of cards.
    pub fn new() -> (r: Klondike)
        ensures
            r.wf(),
            r.history() == Seq::<KlondikeAction>::empty(),
            exists|cards: Seq<Card>|
                cards.to_multiset() == full_deck().to_multiset() && r@ == dealt_board(cards),
    {
        KlondikeMockable::new_with_mover(SimpleCardMover)
    }
}

impl<T: CardMover> View for KlondikeMockable<T> {
    type V = Board;

    closed spec fn view(&self) -> Board {
        Board {
            deck: self.deck@,
            piles: self.piles@.map_values(|p: Pile| p@),
            foundations: self.foundations@.map_values(|f: Foundation| f@),
        }
    }
}

impl<T: CardMover> KlondikeMockable<T> {
    /// The actions performed so far, oldest first.
    pub closed spec fn history(&self) -> Seq<KlondikeAction> {
        self.history@
    }

    /// The mover this game runs its moves with.
    pub closed spec fn mover_spec(&self) -> T {
        self.mover
    }

    /// For each action of the history, the board before it.
    pub closed spec fn past(&self) -> Seq<Board> {
        self.past@
    }

    /// The board before history entry `k`, or the current one for `k` equal
    /// to the history's length.
    closed spec fn state_at(&self, k: int) -> Board {
        if k == self.past@.len() {
            self@
        } else {
            self.past@[k]
        }
    }

    /// Well-formed: every board, now and past, has the game's shape and a
    /// full set of cards, and undoing each history entry on the board after
    /// it gives the board before it.
    pub closed spec fn wf(&self) -> bool {
        &&& self.piles@.len() == NUM_PILES
        &&& self.foundations@.len() == NUM_FOUNDATIONS
        &&& board_shape(self@)
        &&& self.history@.len() == self.past@.len()
        &&& forall|k: int| 0 <= k < self.past@.len() ==> board_shape(#[trigger] self.past@[k])
        &&& forall|k: int|
            0 <= k < self.history@.len() ==> action_fits(self@, #[trigger] self.history@[k])
        &&& forall|k: int|
            0 <= k < self.history@.len() ==> board_after_undo(
                self.state_at(k + 1),
                #[trigger] self.history@[k],
            ) == self.past@[k]
    }

    /// Resolves `origin` and `destination` to their containers and runs the
    /// mover between them: forward, or, when `is_undo`, backward to revert a
    /// move that succeeded. Two piles or two foundations are reached through
    /// one split borrow of their vector.
    fn do_move_cards(
        &mut self,
        origin: CardHolder,
        destination: CardHolder,
        number: u32,
        is_undo: bool,
    ) -> (r: bool)
        ensures
            final(self).piles@.len() == old(self).piles@.len(),
            final(self).foundations@.len() == old(self).foundations@.len(),
            final(self).history@ == old(self).history@,
            final(self).past@ == old(self).past@,
            !is_undo ==> r == move_allowed(old(self)@, origin, destination, number),
            is_undo ==> r == action_fits(
                old(self)@,
                KlondikeAction::MOVE(origin, destination, number),
            ),
            !is_undo && r ==> final(self)@ == board_after_move(old(self)@, origin, destination, number),
            is_undo && r ==> final(self)@ == board_after_undo_move(
                old(self)@,
                origin,
                destination,
                number,
            ),
            !r ==> final(self)@ == old(self)@,
    {
        let ghost b = self@;
        let n = number as usize;
        let r = match destination {
            CardHolder::FOUNDATION(dest_idx) => {
                if dest_idx as usize >= self.foundations.len() {
                    return false;
                }
                match origin {
                    CardHolder::FOUNDATION(origin_idx) => {
                        if origin_idx == dest_idx || origin_idx as usize >= self.foundations.len() {
                            return false;
                        }
                        let (o, d) = extract_two_mutable_elements(
                            &mut self.foundations,
                            origin_idx as usize,
                            dest_idx as usize,
                        );
                        exec_move_cards(&mut self.mover, o, d, n, is_undo)
                    },
                    CardHolder::PILE(origin_idx) => {
                        if origin_idx as usize >= self.piles.len() {
                            return false;
                        }
                        exec_move_cards(
                            &mut self.mover,
                            &mut self.piles[origin_idx as usize],
                            &mut self.foundations[dest_idx as usize],
                            n,
                            is_undo,
                        )
                    },
                    CardHolder::DECK => {
                        exec_move_cards(
                            &mut self.mover,
                            &mut *self.deck,
                            &mut self.foundations[dest_idx as usize],
                            n,
                            is_undo,
                        )
                    },
                }
            },
            CardHolder::PILE(dest_idx) => {
                if dest_idx as usize >= self.piles.len() {
                    return false;
                }
                match origin {
                    CardHolder::FOUNDATION(origin_idx) => {
                        if origin_idx as usize >= self.foundations.len() {
                            return false;
                        }
                        exec_move_cards(
                            &mut self.mover,
                            &mut self.foundations[origin_idx as usize],
                            &mut self.piles[dest_idx as usize],
                            n,
                            is_undo,
                        )
                    },
                    CardHolder::PILE(origin_idx) => {
                        if origin_idx == dest_idx || origin_idx as usize >= self.piles.len() {
                            return false;
                        }
                        let (o, d) = extract_two_mutable_elements(
                            &mut self.piles,
                            origin_idx as usize,
                            dest_idx as usize,
                        );
                        exec_move_cards(&mut self.mover, o, d, n, is_undo)
                    },
                    CardHolder::DECK => {
                        exec_move_cards(
                            &mut self.mover,
                            &mut *self.deck,
                            &mut self.piles[dest_idx as usize],
                            n,
                            is_undo,
                        )
                    },
                }
            },
            CardHolder::DECK => {
                return false;
            },
        };
        proof {
            let e = if !r {
                b
            } else if is_undo {
                board_after_undo_move(b, origin, destination, number)
            } else {
                board_after_move(b, origin, destination, number)
            };
            assert(self@.piles =~= e.piles);
            assert(self@.foundations =~= e.foundations);
        }
        r
    }

    /// Moves `number` cards from `origin` to `destination` when the move is
    /// legal, and records it; otherwise changes nothing.
    pub fn move_cards(&mut self, origin: CardHolder, destination: CardHolder, number: u32) -> (r: bool)
        ensures
            old(self).wf() ==> final(self).wf(),
            r == move_allowed(old(self)@, origin, destination, number),
            r ==> final(self)@ == board_after_move(old(self)@, origin, destination, number)
                && final(self).history() == old(self).history().push(
                KlondikeAction::MOVE(origin, destination, number),
            ) && final(self).past() == old(self).past().push(old(self)@),
            !r ==> final(self)@ == old(self)@ && final(self).history() == old(self).history()
                && final(self).past() == old(self).past(),
    {
        let ghost before = self@;
        if self.do_move_cards(origin, destination, number, false) {
            self.history.push(KlondikeAction::MOVE(origin, destination, number));
            proof {
                lemma_undo_move(before, origin, destination, number);
                lemma_move_keeps_card_count(before, origin, destination, number);
                self.past = Ghost(self.past@.push(before));
            }
            proof {
                if old(self).wf() {
                    assert forall|k: int| 0 <= k < self.history@.len() implies board_after_undo(
                        self.state_at(k + 1),
                        #[trigger] self.history@[k],
                    ) == self.past@[k] by {
                        if k + 1 < self.history@.len() {
                            assert(self.history@[k] == old(self).history@[k]);
                        }
                    }
                    assert forall|k: int| 0 <= k < self.history@.len() implies action_fits(
                        self@,
                        #[trigger] self.history@[k],
                    ) by {
                        if k + 1 < self.history@.len() {
                            assert(self.history@[k] == old(self).history@[k]);
                            assert(action_fits(before, self.history@[k]));
                        }
                    }
                }
            }
            return true;
        }
        false
    }

    /// Turns the next stock card onto the waste (see `Deck::take`) and
    /// records the action; always possible.
    pub fn take(&mut self)
        ensures
            old(self).wf() ==> final(self).wf(),
            final(self)@ == board_after_take(old(self)@),
            final(self).history() == old(self).history().push(KlondikeAction::TAKE),
            final(self).past() == old(self).past().push(old(self)@),
    {
        let ghost before = self@;
        self.deck.take();
        self.history.push(KlondikeAction::TAKE);
        proof {
            lemma_undo_take_board(before);
            lemma_take_keeps_card_count(before);
            self.past = Ghost(self.past@.push(before));
            assert(self@ == board_after_take(before));
            if old(self).wf() {
                assert forall|k: int| 0 <= k < self.history@.len() implies board_after_undo(
                    self.state_at(k + 1),
                    #[trigger] self.history@[k],
                ) == self.past@[k] by {
                    if k + 1 < self.history@.len() {
                        assert(self.history@[k] == old(self).history@[k]);
                    }
                }
                assert forall|k: int| 0 <= k < self.history@.len() implies action_fits(
                    self@,
                    #[trigger] self.history@[k],
                ) by {
                    if k + 1 < self.history@.len() {
                        assert(self.history@[k] == old(self).history@[k]);
                        assert(action_fits(before, self.history@[k]));
                    }
                }
            }
        }
    }

    /// Tries the move of one card from `origin` to each pile in turn, and
    /// stops at the first that succeeds.
    pub fn to_pile(&mut self, origin: CardHolder) -> (r: bool)
        requires
            old(self)@.piles.len() <= u32::MAX,
        ensures
            old(self).wf() ==> final(self).wf(),
            r == exists|i: u32|
                i < old(self)@.piles.len() && #[trigger] move_allowed(old(self)@, origin, CardHolder::PILE(i), 1),
            r ==> exists|i: u32|
                i < old(self)@.piles.len() && #[trigger] move_allowed(old(self)@, origin, CardHolder::PILE(i), 1)
                    && (forall|j: u32| j < i ==> !move_allowed(old(self)@, origin, CardHolder::PILE(j), 1))
                    && final(self)@ == board_after_move(old(self)@, origin, CardHolder::PILE(i), 1)
                    && final(self).history() == old(self).history().push(
                    KlondikeAction::MOVE(origin, CardHolder::PILE(i), 1),
                ) && final(self).past() == old(self).past().push(old(self)@),
            !r ==> final(self)@ == old(self)@ && final(self).history() == old(self).history()
                && final(self).past() == old(self).past(),
    {
        let mut i: usize = 0;
        while i < self.piles.len()
            invariant
                old(self).wf() ==> self.wf(),
                i <= self.piles@.len(),
                self.piles@.len() == self@.piles.len(),
                self@.piles.len() <= u32::MAX,
                self@ == old(self)@,
                self.history() == old(self).history(),
                self.past() == old(self).past(),
                forall|j: u32| j < i ==> !move_allowed(old(self)@, origin, CardHolder::PILE(j), 1),
            decreases self.piles@.len() - i,
        {
            if self.move_cards(origin, CardHolder::PILE(i as u32), 1) {
                return true;
            }
            i += 1;
        }
        false
    }

    /// Reverts the last recorded action, if any: the board becomes what it
    /// was before that action.
    pub fn undo(&mut self)
        ensures
            old(self).wf() ==> final(self).wf(),
            old(self).wf() && old(self).history().len() > 0 ==> final(self)@ == board_after_undo(
                old(self)@,
                old(self).history().last(),
            ) && final(self)@ == old(self).past().last() && final(self).history() == old(
                self,
            ).history().drop_last() && final(self).past() == old(self).past().drop_last(),
            old(self).history().len() == 0 ==> final(self)@ == old(self)@ && final(self).history()
                == old(self).history() && final(self).past() == old(self).past(),
    {
        let ghost before = self@;
        let ghost len = self.history@.len();
        if let Some(action) = self.history.pop() {
            match action {
                KlondikeAction::MOVE(origin, destination, number) => {
                    self.do_move_cards(origin, destination, number, true);
                },
                KlondikeAction::TAKE => {
                    self.deck.undo_take();
                    assert(self@.piles =~= before.piles);
                    assert(self@.foundations =~= before.foundations);
                },
            }
            proof {
                self.past = Ghost(self.past@.drop_last());
                if old(self).wf() {
                    assert(action_fits(before, action));
                    assert(self@ == old(self).past@[len - 1]);
                    assert forall|k: int| 0 <= k < self.history@.len() implies board_after_undo(
                        self.state_at(k + 1),
                        #[trigger] self.history@[k],
                    ) == self.past@[k] by {
                        assert(self.history@[k] == old(self).history@[k]);
                    }
                    assert forall|k: int| 0 <= k < self.history@.len() implies action_fits(
                        self@,
                        #[trigger] self.history@[k],
                    ) by {
                        assert(self.history@[k] == old(self).history@[k]);
                        assert(action_fits(before, self.history@[k]));
                    }
                    assert forall|k: int| 0 <= k < self.past@.len() implies board_shape(
                        #[trigger] self.past@[k],
                    ) by {
                        assert(self.past@[k] == old(self).past@[k]);
                    }
                    assert(board_shape(old(self).past@[len - 1]));
                }
            }
        }
    }

    /// A game made of the given containers, with an empty history.
    pub fn from_parts(deck: Box<Deck>, piles: Vec<Pile>, foundations: Vec<Foundation>, mover: T) -> (r: Self)
        ensures
            r@ == (Board {
                deck: deck@,
                piles: piles@.map_values(|p: Pile| p@),
                foundations: foundations@.map_values(|f: Foundation| f@),
            }),
            r.history() == Seq::<KlondikeAction>::empty(),
            r.past() == Seq::<Board>::empty(),
    {
        KlondikeMockable { deck, piles, foundations, mover, history: Vec::new(), past: Ghost(Seq::empty()) }
    }

    /// The mover this game runs its moves with.
    pub fn mover(&self) -> (r: &T)
        ensures
            *r == self.mover_spec(),
    {
        &self.mover
    }

    /// Deals `cards` in order: foundation `i` takes the next `i + 1` cards,
    /// the last of them face up; the deck takes the remaining 24; the piles
    /// start empty; the history is empty.
    pub fn deal(cards: &Vec<Card>, mover: T) -> (r: Self)
        requires
            cards@.len() == 52,
        ensures
            r.wf(),
            r@ == dealt_board(cards@),
            r.history() == Seq::<KlondikeAction>::empty(),
    {
        let mut piles: Vec<Pile> = Vec::new();
        let mut k: usize = 0;
        while k < NUM_PILES
            invariant
                k <= NUM_PILES,
                piles@.len() == k,
                forall|j: int| 0 <= j < k ==> (#[trigger] piles@[j])@ == Seq::<Card>::empty(),
                piles_total(piles@.map_values(|p: Pile| p@)) == 0,
            decreases NUM_PILES - k,
        {
            let ghost prev = piles@.map_values(|p: Pile| p@);
            piles.push(Pile::new());
            assert(piles@.map_values(|p: Pile| p@).drop_last() =~= prev);
            k += 1;
        }
        let mut foundations: Vec<Foundation> = Vec::new();
        let mut card_idx: usize = 0;
        let mut i: usize = 0;
        while i < NUM_FOUNDATIONS
            invariant
                cards@.len() == 52,
                i <= NUM_FOUNDATIONS,
                foundations@.len() == i,
                card_idx == cascade_start(i as nat),
                forall|j: int|
                    0 <= j < i ==> (#[trigger] foundations@[j])@ == dealt_board(cards@).foundations[j],
                foundations_total(foundations@.map_values(|f: Foundation| f@)) == card_idx,
            decreases NUM_FOUNDATIONS - i,
        {
            let ghost prev = foundations@.map_values(|f: Foundation| f@);
            proof {
                lemma_cascade_start(i as nat);
            }
            let part = copy_cards(cards, card_idx, card_idx + i + 1);
            let f = Foundation::new(part);
            assert(f@.hidden =~= dealt_board(cards@).foundations[i as int].hidden);
            assert(f@.visible =~= dealt_board(cards@).foundations[i as int].visible);
            foundations.push(f);
            assert(foundations@.map_values(|f: Foundation| f@).drop_last() =~= prev);
            card_idx += i + 1;
            i += 1;
        }
        proof {
            lemma_cascade_start(i as nat);
        }
        let rest = copy_cards(cards, card_idx, cards.len());
        let deck = Deck::new(&rest);
        let r = KlondikeMockable {
            deck: Box::new(deck),
            piles,
            foundations,
            mover,
            history: Vec::new(),
            past: Ghost(Seq::empty()),
        };
        assert(r@.piles =~= dealt_board(cards@).piles);
        assert(r@.foundations =~= dealt_board(cards@).foundations);
        r
    }

    /// A new game with `mover`, dealt from a shuffled full set of cards.
    pub fn new_with_mover(mover: T) -> (r: Self)
        ensures
            r.wf(),
            r.history() == Seq::<KlondikeAction>::empty(),
            exists|cards: Seq<Card>|
                cards.to_multiset() == full_deck().to_multiset() && r@ == dealt_board(cards),
    {
        let cards = Self::generate_randomized_card_deck();
        Self::deal(&cards, mover)
    }

    /// The full set of cards in a random order.
    pub fn generate_randomized_card_deck() -> (r: Vec<Card>)
        ensures
            r@.len() == 52,
            r@.to_multiset() == full_deck().to_multiset(),
    {
        let suits = CardSuit::all();
        let ranks = CardRank::all();
        let mut cards: Vec<Card> = Vec::new();
        let mut s: usize = 0;
        while s < suits.len()
            invariant
                suits@ == seq![CardSuit::CLUBS, CardSuit::DIAMONDS, CardSuit::HEARTS, CardSuit::SPADES],
                ranks@.len() == 13,
                forall|i: int| 0 <= i < 13 ==> crate::card::rank_value(#[trigger] ranks@[i]) == i + 1,
                s <= 4,
                cards@ == full_deck().subrange(0, 13 * s as int),
            decreases 4 - s,
        {
            let mut k: usize = 0;
            while k < ranks.len()
                invariant
                    suits@ == seq![CardSuit::CLUBS, CardSuit::DIAMONDS, CardSuit::HEARTS, CardSuit::SPADES],
                    ranks@.len() == 13,
                    forall|i: int| 0 <= i < 13 ==> crate::card::rank_value(#[trigger] ranks@[i]) == i + 1,
                    s < 4,
                    k <= 13,
                    cards@ == full_deck().subrange(0, 13 * s + k),
                decreases 13 - k,
            {
                let ghost at = 13 * s + k;
                assert(at / 13 == s && at % 13 == k) by (nonlinear_arith)
                    requires
                        at == 13 * s + k,
                        k < 13,
                ;
                assert(rank_at(k as int) == ranks@[k as int]) by {
                    assert(crate::card::rank_value(ranks@[k as int]) == k + 1);
                }
                cards.push(Card { suit: suits[s], rank: ranks[k] });
                k += 1;
                assert(cards@ =~= full_deck().subrange(0, 13 * s + k));
            }
            s += 1;
        }
        assert(cards@ =~= full_deck());
        shuffle_cards(&mut cards);
        cards
    }

    /// A snapshot of every container.
    pub fn get_status(&self) -> (r: KlondikeStatus)
        ensures
            r.deck == deck_status(self@.deck),
            r.piles@.len() == self@.piles.len(),
            forall|i: int| 0 <= i < r.piles@.len() ==> r.piles@[i] == pile_status(#[trigger] self@.piles[i]),
            r.foundations@.len() == self@.foundations.len(),
            forall|i: int|
                0 <= i < r.foundations@.len() ==> foundation_status_matches(
                    #[trigger] r.foundations@[i],
                    self@.foundations[i],
                ),
    {
        let mut piles: Vec<PileStatus> = Vec::new();
        let mut i: usize = 0;
        while i < self.piles.len()
            invariant
                i <= self.piles@.len(),
                piles@.len() == i,
                forall|j: int| 0 <= j < i ==> piles@[j] == pile_status(#[trigger] self@.piles[j]),
            decreases self.piles@.len() - i,
        {
            piles.push(self.piles[i].get_status());
            i += 1;
        }
        let mut foundations: Vec<FoundationStatus> = Vec::new();
        let mut i: usize = 0;
        while i < self.foundations.len()
            invariant
                i <= self.foundations@.len(),
                foundations@.len() == i,
                forall|j: int|
                    0 <= j < i ==> foundation_status_matches(
                        #[trigger] foundations@[j],
                        self@.foundations[j],
                    ),
            decreases self.foundations@.len() - i,
        {
            foundations.push(self.foundations[i].get_status());
            i += 1;
        }
        KlondikeStatus { deck: self.deck.get_status(), piles, foundations }
    }

    /// Every well-formed game holds all 52 cards.
    pub proof fn lemma_card_count(&self)
        requires
            self.wf(),
        ensures
            card_count(self@) == 52,
            forall|k: int| 0 <= k < self.past().len() ==> card_count(#[trigger] self.past()[k]) == 52,
    {
        assert forall|k: int| 0 <= k < self.past().len() implies card_count(#[trigger] self.past()[k]) == 52 by {
            assert(board_shape(self.past@[k]));
        }
    }
}

} // verus!
