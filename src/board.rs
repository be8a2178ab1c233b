use vstd::prelude::*;
use vstd::string::StringSliceAdditionalSpecFns;
use crate::card::Card;
use crate::deck::{DeckView, deck_can_peek, deck_after_undo_peek, deck_after_take, deck_after_undo_take, lemma_undo_take};
use crate::pile::{pile_can_peek, pile_can_poke, pile_unpoked, pile_after_undo_poke, pile_after_undo_peek};
use crate::foundation::{
    FoundationView,
    foundation_can_peek,
    foundation_peeked,
    foundation_after_peek,
    foundation_after_undo_peek,
    foundation_can_poke,
    foundation_after_poke,
    foundation_unpoked,
    foundation_after_undo_poke,
};

verus! {

/// A logical reference to one container of a game.
#[derive(Debug, Copy, Clone, PartialEq, Eq, Structural)]
pub enum CardHolder {
    DECK,
    PILE(u32),
    FOUNDATION(u32),
}

/// ASCII codes of the characters in container names.
const LOWER_D: u8 = 100;
const UPPER_D: u8 = 68;
const LOWER_P: u8 = 112;
const UPPER_P: u8 = 80;
const LOWER_F: u8 = 102;
const UPPER_F: u8 = 70;
const DIGIT_ONE: u8 = 49;
const DIGIT_FOUR: u8 = 52;
const DIGIT_SEVEN: u8 = 55;

/// The container named by `name`: `d` for the deck, `p1` to `p4` for the
/// piles, `f1` to `f7` for the foundations, letters in either case.
pub open spec fn holder_named(name: Seq<u8>) -> Option<CardHolder> {
    if name.len() == 1 && (name[0] == 100u8 || name[0] == 68u8) {
        Some(CardHolder::DECK)
    } else if name.len() == 2 && (name[0] == 112u8 || name[0] == 80u8) && 49u8 <= name[1]
        <= 52u8 {
        Some(CardHolder::PILE((name[1] - 49) as u32))
    } else if name.len() == 2 && (name[0] == 102u8 || name[0] == 70u8) && 49u8 <= name[1]
        <= 55u8 {
        Some(CardHolder::FOUNDATION((name[1] - 49) as u32))
    } else {
        None
    }
}

/// Reads the name of a container, as `holder_named` describes; anything
/// else, or no name, gives `None`.
pub fn get_card_holder(name: Option<&str>) -> (r: Option<CardHolder>)
    ensures
        r == match name {
            Some(s) => holder_named(s.spec_bytes()),
            None => None,
        },
{
    match name {
        None => None,
        Some(s) => {
            let b = s.as_bytes();
            if b.len() == 1 && (b[0] == LOWER_D || b[0] == UPPER_D) {
                Some(CardHolder::DECK)
            } else if b.len() == 2 && (b[0] == LOWER_P || b[0] == UPPER_P) && DIGIT_ONE <= b[1]
                && b[1] <= DIGIT_FOUR {
                Some(CardHolder::PILE((b[1] - DIGIT_ONE) as u32))
            } else if b.len() == 2 && (b[0] == LOWER_F || b[0] == UPPER_F) && DIGIT_ONE <= b[1]
                && b[1] <= DIGIT_SEVEN {
                Some(CardHolder::FOUNDATION((b[1] - DIGIT_ONE) as u32))
            } else {
                None
            }
        },
    }
}

/// One entry of a game's history.
#[derive(Debug, Copy, Clone, PartialEq, Eq, Structural)]
pub enum KlondikeAction {
    MOVE(CardHolder, CardHolder, u32),
    TAKE,
}

/// The number of piles of a game.
pub const NUM_PILES: usize = 4;

/// The number of foundations of a game.
pub const NUM_FOUNDATIONS: usize = 7;

/// The abstract state of all containers of a game.
pub struct Board {
    pub deck: DeckView,
    pub piles: Seq<Seq<Card>>,
    pub foundations: Seq<FoundationView>,
}

/// `h` names a container of the board.
pub open spec fn holder_valid(b: Board, h: CardHolder) -> bool {
    match h {
        CardHolder::DECK => true,
        CardHolder::PILE(i) => i < b.piles.len(),
        CardHolder::FOUNDATION(i) => i < b.foundations.len(),
    }
}

/// Whether `number` cards may be taken from container `h`.
pub open spec fn holder_can_peek(b: Board, h: CardHolder, number: usize) -> bool {
    match h {
        CardHolder::DECK => deck_can_peek(b.deck, number),
        CardHolder::PILE(i) => pile_can_peek(b.piles[i as int], number),
        CardHolder::FOUNDATION(i) => foundation_can_peek(b.foundations[i as int], number),
    }
}

/// The cards a take of `number` from container `h` hands out.
pub open spec fn holder_peeked(b: Board, h: CardHolder, number: usize) -> Seq<Card> {
    match h {
        CardHolder::DECK => seq![b.deck.waste.last()],
        CardHolder::PILE(i) => seq![b.piles[i as int].last()],
        CardHolder::FOUNDATION(i) => foundation_peeked(b.foundations[i as int], number),
    }
}

/// The board after `number` cards were taken from container `h`.
pub open spec fn board_after_peek(b: Board, h: CardHolder, number: usize) -> Board {
    match h {
        CardHolder::DECK => Board {
            deck: DeckView { stock: b.deck.stock, waste: b.deck.waste.drop_last(), flips: b.deck.flips },
            ..b
        },
        CardHolder::PILE(i) => Board { piles: b.piles.update(i as int, b.piles[i as int].drop_last()), ..b },
        CardHolder::FOUNDATION(i) => Board {
            foundations: b.foundations.update(
                i as int,
                foundation_after_peek(b.foundations[i as int], number),
            ),
            ..b
        },
    }
}

/// The board after `cards` were put back on container `h`.
pub open spec fn board_after_undo_peek(b: Board, h: CardHolder, cards: Seq<Card>) -> Board {
    match h {
        CardHolder::DECK => Board { deck: deck_after_undo_peek(b.deck, cards), ..b },
        CardHolder::PILE(i) => Board {
            piles: b.piles.update(i as int, pile_after_undo_peek(b.piles[i as int], cards)),
            ..b
        },
        CardHolder::FOUNDATION(i) => Board {
            foundations: b.foundations.update(
                i as int,
                foundation_after_undo_peek(b.foundations[i as int], cards),
            ),
            ..b
        },
    }
}

/// The deck is never a destination.
pub open spec fn holder_can_poke(b: Board, h: CardHolder, cards: Seq<Card>) -> bool {
    match h {
        CardHolder::DECK => false,
        CardHolder::PILE(i) => pile_can_poke(b.piles[i as int], cards),
        CardHolder::FOUNDATION(i) => foundation_can_poke(b.foundations[i as int], cards),
    }
}

/// The board after container `h` accepted `cards`.
pub open spec fn board_after_poke(b: Board, h: CardHolder, cards: Seq<Card>) -> Board {
    match h {
        CardHolder::DECK => b,
        CardHolder::PILE(i) => Board { piles: b.piles.update(i as int, b.piles[i as int].push(cards[0])), ..b },
        CardHolder::FOUNDATION(i) => Board {
            foundations: b.foundations.update(
                i as int,
                foundation_after_poke(b.foundations[i as int], cards),
            ),
            ..b
        },
    }
}

/// The cards container `h` hands back when its last `number` are asked for.
pub open spec fn holder_unpoked(b: Board, h: CardHolder, number: usize) -> Seq<Card> {
    match h {
        CardHolder::DECK => Seq::empty(),
        CardHolder::PILE(i) => pile_unpoked(b.piles[i as int], number),
        CardHolder::FOUNDATION(i) => foundation_unpoked(b.foundations[i as int], number),
    }
}

/// The board after container `h` handed back its last `number` cards.
pub open spec fn board_after_undo_poke(b: Board, h: CardHolder, number: usize) -> Board {
    match h {
        CardHolder::DECK => b,
        CardHolder::PILE(i) => Board {
            piles: b.piles.update(i as int, pile_after_undo_poke(b.piles[i as int], number)),
            ..b
        },
        CardHolder::FOUNDATION(i) => Board {
            foundations: b.foundations.update(
                i as int,
                foundation_after_undo_poke(b.foundations[i as int], number),
            ),
            ..b
        },
    }
}

/// A move is legal when it goes to a pile or a foundation other than its
/// origin, both containers exist, the origin allows the take and the
/// destination accepts the cards taken.
pub open spec fn move_allowed(b: Board, from: CardHolder, to: CardHolder, number: u32) -> bool {
    &&& to != CardHolder::DECK
    &&& from != to
    &&& holder_valid(b, from)
    &&& holder_valid(b, to)
    &&& holder_can_peek(b, from, number as usize)
    &&& holder_can_poke(b, to, holder_peeked(b, from, number as usize))
}

/// The board after a legal move: the cards taken from `from` go onto `to`.
pub open spec fn board_after_move(b: Board, from: CardHolder, to: CardHolder, number: u32) -> Board {
    board_after_poke(
        board_after_peek(b, from, number as usize),
        to,
        holder_peeked(b, from, number as usize),
    )
}

/// The destination hands back its last `number` cards and the origin takes
/// them back.
pub open spec fn board_after_undo_move(b: Board, from: CardHolder, to: CardHolder, number: u32) -> Board {
    board_after_undo_peek(
        board_after_undo_poke(b, to, number as usize),
        from,
        holder_unpoked(b, to, number as usize),
    )
}

/// The board after a take from the stock.
pub open spec fn board_after_take(b: Board) -> Board {
    Board { deck: deck_after_take(b.deck), ..b }
}

/// The board after undoing `action`.
pub open spec fn board_after_undo(b: Board, action: KlondikeAction) -> Board {
    match action {
        KlondikeAction::MOVE(from, to, number) => board_after_undo_move(b, from, to, number),
        KlondikeAction::TAKE => Board { deck: deck_after_undo_take(b.deck), ..b },
    }
}

/// The number of cards in all piles.
pub open spec fn piles_total(piles: Seq<Seq<Card>>) -> int
    decreases piles.len(),
{
    if piles.len() == 0 {
        0
    } else {
        piles_total(piles.drop_last()) + piles.last().len()
    }
}

/// The number of cards, hidden or visible, in all foundations.
pub open spec fn foundations_total(fs: Seq<FoundationView>) -> int
    decreases fs.len(),
{
    if fs.len() == 0 {
        0
    } else {
        foundations_total(fs.drop_last()) + fs.last().hidden.len() + fs.last().visible.len()
    }
}

/// A board of the game's shape, holding a full set of cards.
pub open spec fn board_shape(b: Board) -> bool {
    &&& b.piles.len() == NUM_PILES
    &&& b.foundations.len() == NUM_FOUNDATIONS
    &&& card_count(b) == 52
}

/// A history entry that names containers of `b` and can be undone there.
pub open spec fn action_fits(b: Board, action: KlondikeAction) -> bool {
    match action {
        KlondikeAction::MOVE(from, to, number) => {
            &&& to != CardHolder::DECK
            &&& from != to
            &&& holder_valid(b, from)
            &&& holder_valid(b, to)
        },
        KlondikeAction::TAKE => true,
    }
}

/// The number of cards on the board, in every container.
pub open spec fn card_count(b: Board) -> int {
    b.deck.stock.len() + b.deck.waste.len() + piles_total(b.piles) + foundations_total(b.foundations)
}

proof fn lemma_piles_total_update(piles: Seq<Seq<Card>>, i: int, p: Seq<Card>)
    requires
        0 <= i < piles.len(),
    ensures
        piles_total(piles.update(i, p)) == piles_total(piles) - piles[i].len() + p.len(),
    decreases piles.len(),
{
    let u = piles.update(i, p);
    if i == piles.len() - 1 {
        assert(u.drop_last() =~= piles.drop_last());
    } else {
        assert(u.drop_last() =~= piles.drop_last().update(i, p));
        lemma_piles_total_update(piles.drop_last(), i, p);
    }
}

proof fn lemma_foundations_total_update(fs: Seq<FoundationView>, i: int, f: FoundationView)
    requires
        0 <= i < fs.len(),
    ensures
        foundations_total(fs.update(i, f)) == foundations_total(fs) - fs[i].hidden.len()
            - fs[i].visible.len() + f.hidden.len() + f.visible.len(),
    decreases fs.len(),
{
    let u = fs.update(i, f);
    if i == fs.len() - 1 {
        assert(u.drop_last() =~= fs.drop_last());
    } else {
        assert(u.drop_last() =~= fs.drop_last().update(i, f));
        lemma_foundations_total_update(fs.drop_last(), i, f);
    }
}

/// A take hands out as many cards as were asked for, and the board loses
/// exactly those.
proof fn lemma_peek_count(b: Board, h: CardHolder, number: usize)
    requires
        holder_valid(b, h),
        holder_can_peek(b, h, number),
    ensures
        holder_peeked(b, h, number).len() == number,
        card_count(board_after_peek(b, h, number)) == card_count(b) - number,
{
    match h {
        CardHolder::DECK => {},
        CardHolder::PILE(i) => {
            lemma_piles_total_update(b.piles, i as int, b.piles[i as int].drop_last());
        },
        CardHolder::FOUNDATION(i) => {
            lemma_foundations_total_update(
                b.foundations,
                i as int,
                foundation_after_peek(b.foundations[i as int], number),
            );
        },
    }
}

/// An accepted run adds exactly its cards to the board.
proof fn lemma_poke_count(b: Board, h: CardHolder, cards: Seq<Card>)
    requires
        holder_valid(b, h),
        holder_can_poke(b, h, cards),
    ensures
        card_count(board_after_poke(b, h, cards)) == card_count(b) + cards.len(),
{
    match h {
        CardHolder::DECK => {},
        CardHolder::PILE(i) => {
            lemma_piles_total_update(b.piles, i as int, b.piles[i as int].push(cards[0]));
        },
        CardHolder::FOUNDATION(i) => {
            lemma_foundations_total_update(
                b.foundations,
                i as int,
                foundation_after_poke(b.foundations[i as int], cards),
            );
        },
    }
}

/// A legal move keeps the number of cards on the board.
pub proof fn lemma_move_keeps_card_count(b: Board, from: CardHolder, to: CardHolder, number: u32)
    requires
        move_allowed(b, from, to, number),
    ensures
        card_count(board_after_move(b, from, to, number)) == card_count(b),
{
    let n = number as usize;
    lemma_peek_count(b, from, n);
    let mid = board_after_peek(b, from, n);
    assert(holder_valid(mid, to));
    assert(holder_can_poke(mid, to, holder_peeked(b, from, n)));
    lemma_poke_count(mid, to, holder_peeked(b, from, n));
}

/// A take from the stock keeps the number of cards on the board.
pub proof fn lemma_take_keeps_card_count(b: Board)
    ensures
        card_count(board_after_take(b)) == card_count(b),
{
}

/// Handing back a run just accepted returns that run and restores the
/// board.
proof fn lemma_undo_poke_restores(b: Board, h: CardHolder, cards: Seq<Card>, number: usize)
    requires
        holder_valid(b, h),
        holder_can_poke(b, h, cards),
        cards.len() == number,
    ensures
        holder_unpoked(board_after_poke(b, h, cards), h, number) == cards,
        board_after_undo_poke(board_after_poke(b, h, cards), h, number) == b,
{
    let post = board_after_poke(b, h, cards);
    match h {
        CardHolder::DECK => {},
        CardHolder::PILE(i) => {
            let p = b.piles[i as int];
            assert(p.push(cards[0]).drop_last() =~= p);
            assert(seq![p.push(cards[0]).last()] =~= cards);
            assert(post.piles.update(i as int, p) =~= b.piles);
        },
        CardHolder::FOUNDATION(i) => {
            let f = b.foundations[i as int];
            let v = f.visible + cards;
            assert(v.subrange(0, v.len() - cards.len()) =~= f.visible);
            assert(v.subrange(v.len() - cards.len(), v.len() as int) =~= cards);
            assert(post.foundations.update(i as int, f) =~= b.foundations);
        },
    }
}

/// Putting back the cards of a legal take restores the board.
proof fn lemma_undo_peek_restores(b: Board, h: CardHolder, number: usize)
    requires
        holder_valid(b, h),
        holder_can_peek(b, h, number),
    ensures
        board_after_undo_peek(board_after_peek(b, h, number), h, holder_peeked(b, h, number)) == b,
{
    let cards = holder_peeked(b, h, number);
    let mid = board_after_peek(b, h, number);
    match h {
        CardHolder::DECK => {
            assert(b.deck.waste.drop_last().push(b.deck.waste.last()) =~= b.deck.waste);
        },
        CardHolder::PILE(i) => {
            let p = b.piles[i as int];
            assert(p.drop_last().push(p.last()) =~= p);
            assert(mid.piles.update(i as int, p) =~= b.piles);
        },
        CardHolder::FOUNDATION(i) => {
            let f = b.foundations[i as int];
            let rest = f.visible.subrange(0, f.visible.len() - number);
            assert(rest + cards =~= f.visible);
            if rest.len() == 0 && f.hidden.len() > 0 {
                assert(f.hidden.drop_last().push(f.hidden.last()) =~= f.hidden);
                assert(cards =~= f.visible);
            }
            assert(f.unhid.push(true).drop_last() =~= f.unhid);
            assert(f.unhid.push(false).drop_last() =~= f.unhid);
            assert(mid.foundations.update(i as int, f) =~= b.foundations);
        },
    }
}

/// Undoing a legal move restores the board exactly.
pub proof fn lemma_undo_move(b: Board, from: CardHolder, to: CardHolder, number: u32)
    requires
        move_allowed(b, from, to, number),
    ensures
        board_after_undo_move(board_after_move(b, from, to, number), from, to, number) == b,
{
    let n = number as usize;
    let cards = holder_peeked(b, from, n);
    lemma_peek_count(b, from, n);
    let mid = board_after_peek(b, from, n);
    assert(holder_valid(mid, to));
    assert(holder_can_poke(mid, to, cards));
    lemma_undo_poke_restores(mid, to, cards, n);
    lemma_undo_peek_restores(b, from, n);
}

/// Undoing a take restores the board exactly.
pub proof fn lemma_undo_take_board(b: Board)
    ensures
        board_after_undo(board_after_take(b), KlondikeAction::TAKE) == b,
{
    lemma_undo_take(b.deck);
}

/// A container can never be moved onto itself.
pub proof fn lemma_self_move_rejected(b: Board, h: CardHolder, number: u32)
    ensures
        !move_allowed(b, h, h, number),
{
}

} // verus!
