use klondike::card::{Card, CardRank, CardSuit};
use klondike::containers::{CardMover, SimpleCardMover};
use klondike::foundation::Foundation;

fn card(suit: CardSuit, rank: CardRank) -> Card {
    Card { suit, rank }
}

fn generate_descending_alt_color_starting(start: usize, size: usize) -> Vec<Card> {
    vec![
        card(CardSuit::HEARTS, CardRank::KING),
        card(CardSuit::SPADES, CardRank::QUEEN),
        card(CardSuit::DIAMONDS, CardRank::JACK),
        card(CardSuit::CLUBS, CardRank::TEN),
        card(CardSuit::DIAMONDS, CardRank::NINE),
        card(CardSuit::CLUBS, CardRank::EIGHT),
        card(CardSuit::HEARTS, CardRank::SEVEN),
        card(CardSuit::SPADES, CardRank::SIX),
        card(CardSuit::HEARTS, CardRank::FIVE),
    ][start..start + size]
        .to_vec()
}

/// An origin that allows taking `number` cards (a run starting with the
/// Queen of Spades) or none, and a destination that accepts that run (it
/// shows the King of Hearts) or not (it shows the Jack of Diamonds).
fn card_mover_check(ret_peek: bool, ret_poke: bool, number: usize, expected: bool) {
    let mut mover = SimpleCardMover {};
    let run = generate_descending_alt_color_starting(1, number);
    let mut origin = Foundation::from_parts(Vec::new(), if ret_peek { run.clone() } else { Vec::new() });
    let top = if ret_poke {
        generate_descending_alt_color_starting(0, 1)
    } else {
        generate_descending_alt_color_starting(2, 1)
    };
    let mut destination = Foundation::from_parts(Vec::new(), top.clone());
    let origin_before = origin.get_status();

    let result = mover.move_cards(&mut origin, &mut destination, number);

    assert_eq!(result, expected);
    if expected {
        assert!(origin.get_status().visible.is_empty());
        let mut moved = top.clone();
        moved.extend(run);
        assert_eq!(destination.get_status().visible, moved);
    } else {
        assert_eq!(origin.get_status(), origin_before);
        assert_eq!(destination.get_status().visible, top);
    }
}

fn check_card_mover() {
    for i in 1..5 {
        card_mover_check(false, false, i, false);
        card_mover_check(false, true, i, false);
        card_mover_check(true, false, i, false);
        card_mover_check(true, true, i, true);
    }
}

#[test]
fn card_card_mover() {
    check_card_mover();
}

#[test]
fn card_containers_card_mover() {
    check_card_mover();
}

fn undo_card_mover_case(number: usize) {
    let mut mover = SimpleCardMover {};
    let cards = generate_descending_alt_color_starting(0, number);
    let mut origin = Foundation::from_parts(Vec::new(), Vec::new());
    let mut destination = Foundation::from_parts(Vec::new(), cards.clone());

    mover.undo_move_cards(&mut origin, &mut destination, number);

    assert!(destination.get_status().visible.is_empty());
    assert_eq!(origin.get_status().visible, cards);
}

#[test]
fn undo_card_mover() {
    for i in 1..10 {
        undo_card_mover_case(i);
    }
}

#[test]
fn move_then_undo_restores_both_sides() {
    let mut mover = SimpleCardMover {};
    let mut origin = Foundation::from_parts(
        vec![card(CardSuit::CLUBS, CardRank::ACE)],
        generate_descending_alt_color_starting(1, 2),
    );
    let mut destination = Foundation::from_parts(Vec::new(), generate_descending_alt_color_starting(0, 1));
    let (o, d) = (origin.get_status(), destination.get_status());
    assert!(mover.move_cards(&mut origin, &mut destination, 2));
    assert_eq!(origin.get_status().num_hidden, 0);
    assert_eq!(origin.get_status().visible, vec![card(CardSuit::CLUBS, CardRank::ACE)]);
    mover.undo_move_cards(&mut origin, &mut destination, 2);
    assert_eq!(origin.get_status(), o);
    assert_eq!(destination.get_status(), d);
}
