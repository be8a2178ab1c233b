use vstd::prelude::*;
use crate::card::Card;

verus! {

/// Anything cards can be taken from.
///
/// A take is two-phase: `try_peek` tells without side effects whether a take
/// of `number` cards is legal and which cards it would hand out; `peek`
/// performs it. `undo_peek` puts back what a `peek` handed out and reverts any
/// secondary effect that the take had.
pub trait CardOrigin: Sized {
    /// Whether `number` cards may be taken now.
    spec fn can_peek(&self, number: usize) -> bool;

    /// The cards a take of `number` hands out, bottom to top.
    spec fn peeked(&self, number: usize) -> Seq<Card>;

    /// `post` is the container after a legal take of `number` cards.
    spec fn peek_post(&self, number: usize, post: Self) -> bool;

    /// `post` is the container after `cards` were put back.
    spec fn undo_peek_post(&self, cards: Seq<Card>, post: Self) -> bool;

    fn try_peek(&self, number: usize) -> (r: Option<Vec<Card>>)
        ensures
            r.is_some() == self.can_peek(number),
            r.is_some() ==> r.unwrap()@ == self.peeked(number),
    ;

    fn peek(&mut self, number: usize) -> (r: Vec<Card>)
        ensures
            old(self).can_peek(number) ==> r@ == old(self).peeked(number) && old(self).peek_post(
                number,
                *final(self),
            ),
            !old(self).can_peek(number) ==> r@.len() == 0 && *final(self) == *old(self),
    ;

    fn undo_peek(&mut self, cards: &Vec<Card>)
        ensures
            old(self).undo_peek_post(cards@, *final(self)),
    ;
}

/// Anything cards can be moved to.
///
/// `try_poke` tells without side effects whether a run of cards would be
/// accepted on top; `poke` adds it when it would. `undo_poke` removes the last
/// `number` cards that were accepted.
pub trait CardDestination: Sized {
    /// Whether the run `cards` would be accepted now.
    spec fn can_poke(&self, cards: Seq<Card>) -> bool;

    /// `post` is the container after the run `cards` was accepted.
    spec fn poke_post(&self, cards: Seq<Card>, post: Self) -> bool;

    /// The cards that `undo_poke(number)` hands back.
    spec fn unpoked(&self, number: usize) -> Seq<Card>;

    /// `post` is the container after `undo_poke(number)`.
    spec fn undo_poke_post(&self, number: usize, post: Self) -> bool;

    fn try_poke(&self, cards: &Vec<Card>) -> (r: bool)
        ensures
            r == self.can_poke(cards@),
    ;

    fn poke(&mut self, cards: &Vec<Card>)
        ensures
            old(self).can_poke(cards@) ==> old(self).poke_post(cards@, *final(self)),
            !old(self).can_poke(cards@) ==> *final(self) == *old(self),
    ;

    fn undo_poke(&mut self, number: usize) -> (r: Vec<Card>)
        ensures
            r@ == old(self).unpoked(number),
            old(self).undo_poke_post(number, *final(self)),
    ;
}

/// The two-phase move between any origin and any destination, and its
/// inverse.
pub trait CardMover {
    /// Moves `number` cards from `origin` to `destination` when the origin
    /// allows the take and the destination accepts the cards; otherwise
    /// touches neither.
    fn move_cards<O: CardOrigin, D: CardDestination>(
        &mut self,
        origin: &mut O,
        destination: &mut D,
        number: usize,
    ) -> (r: bool)
        ensures
            r == (old(origin).can_peek(number) && old(destination).can_poke(
                old(origin).peeked(number),
            )),
            r ==> old(origin).peek_post(number, *final(origin)) && old(destination).poke_post(
                old(origin).peeked(number),
                *final(destination),
            ),
            !r ==> *final(origin) == *old(origin) && *final(destination) == *old(destination),
    ;

    /// Reverts a successful `move_cards(origin, destination, number)`: the
    /// destination hands back its last `number` cards and the origin takes
    /// them back.
    fn undo_move_cards<O: CardOrigin, D: CardDestination>(
        &mut self,
        origin: &mut O,
        destination: &mut D,
        number: usize,
    )
        ensures
            old(destination).undo_poke_post(number, *final(destination)),
            old(origin).undo_peek_post(old(destination).unpoked(number), *final(origin)),
    ;
}

/// The plain mover: checks, then moves.
#[derive(Clone, Debug, PartialEq, Eq, Structural)]
pub struct SimpleCardMover;

impl CardMover for SimpleCardMover {
    fn move_cards<O: CardOrigin, D: CardDestination>(
        &mut self,
        origin: &mut O,
        destination: &mut D,
        number: usize,
    ) -> (r: bool) {
        if let Some(try_cards) = origin.try_peek(number) {
            if destination.try_poke(&try_cards) {
                let cards = origin.peek(number);
                destination.poke(&cards);
                return true;
            }
        }
        false
    }

    fn undo_move_cards<O: CardOrigin, D: CardDestination>(
        &mut self,
        origin: &mut O,
        destination: &mut D,
        number: usize,
    ) {
        let cards = destination.undo_poke(number);
        origin.undo_peek(&cards);
    }
}

} // verus!
