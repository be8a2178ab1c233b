use klondike::card::{Card, CardRank, CardSuit};
use klondike::containers::{CardDestination, CardOrigin};
use klondike::foundation::{foundation_slot, Foundation, FoundationSlot, FoundationStatus};
use rand::seq::SliceRandom;
use rand::thread_rng;

fn card(suit: CardSuit, rank: CardRank) -> Card {
    Card { suit, rank }
}

fn generate_random_card_set(size: usize) -> Vec<Card> {
    let mut cards: Vec<Card> = Vec::new();
    for suit in CardSuit::all() {
        for rank in vec![CardRank::ACE, CardRank::TWO, CardRank::THREE, CardRank::FOUR] {
            cards.push(Card { rank, suit });
        }
    }
    let mut rng = thread_rng();
    cards.shuffle(&mut rng);
    cards[..size].to_vec()
}

fn generate_descending_alt_color_starting(start: usize, size: usize) -> Vec<Card> {
    vec![
        card(CardSuit::HEARTS, CardRank::KING),
        card(CardSuit::SPADES, CardRank::QUEEN),
        card(CardSuit::DIAMONDS, CardRank::JACK),
        card(CardSuit::CLUBS, CardRank::TEN),
        card(CardSuit::DIAMONDS, CardRank::NINE),
        card(CardSuit::CLUBS, CardRank::EIGHT),
        card(CardSuit::HEARTS, CardRank::SEVEN),
        card(CardSuit::SPADES, CardRank::SIX),
        card(CardSuit::HEARTS, CardRank::FIVE),
    ][start..start + size]
        .to_vec()
}

fn create_test_foundation(hidden: usize, visible_start: usize, visible_number: usize) -> Foundation {
    Foundation::from_parts(
        generate_random_card_set(hidden),
        generate_descending_alt_color_starting(visible_start, visible_number),
    )
}

fn check_new() {
    let cards = vec![
        card(CardSuit::DIAMONDS, CardRank::ACE),
        card(CardSuit::DIAMONDS, CardRank::TWO),
        card(CardSuit::DIAMONDS, CardRank::THREE),
    ];
    let mut found = Foundation::new(cards);
    let status = found.get_status();
    assert_eq!(status.num_hidden, 2);
    assert_eq!(status.visible, vec![card(CardSuit::DIAMONDS, CardRank::THREE)]);
    // The hidden cards come up in order, the second one first.
    assert_eq!(found.peek(1), vec![card(CardSuit::DIAMONDS, CardRank::THREE)]);
    assert_eq!(found.get_status().visible, vec![card(CardSuit::DIAMONDS, CardRank::TWO)]);
    assert_eq!(found.peek(1), vec![card(CardSuit::DIAMONDS, CardRank::TWO)]);
    assert_eq!(found.get_status().visible, vec![card(CardSuit::DIAMONDS, CardRank::ACE)]);
}

fn check_new_one() {
    let found = Foundation::new(vec![card(CardSuit::DIAMONDS, CardRank::ACE)]);
    let status = found.get_status();
    assert_eq!(status.num_hidden, 0);
    assert_eq!(status.visible, vec![card(CardSuit::DIAMONDS, CardRank::ACE)]);
}

fn foundation_peek_test(hidden: usize, visible: usize, peek: usize, remaining_hidden: u32, remaining_visible: usize) {
    let mut found = create_test_foundation(hidden, 0, visible);
    assert_eq!(found.try_peek(peek), Some(generate_descending_alt_color_starting(visible - peek, peek)));
    assert_eq!(found.peek(peek), generate_descending_alt_color_starting(visible - peek, peek));
    let status = found.get_status();
    assert_eq!(status.num_hidden, remaining_hidden);
    assert_eq!(status.visible.len(), remaining_visible);
}

fn check_peek() {
    foundation_peek_test(3, 1, 1, 2, 1);
    foundation_peek_test(3, 2, 1, 3, 1);
    foundation_peek_test(3, 2, 2, 2, 1);
    foundation_peek_test(1, 1, 1, 0, 1);
    foundation_peek_test(0, 1, 1, 0, 0);
    foundation_peek_test(0, 2, 1, 0, 1);
    foundation_peek_test(0, 2, 2, 0, 0);
}

fn check_peek_overflow() {
    let mut found = create_test_foundation(3, 0, 1);
    assert_eq!(found.try_peek(2), None);
    assert_eq!(found.peek(2).is_empty(), true);
}

fn foundation_poke_case_ok(visible_start: usize, visible_size: usize, to_add: usize) {
    let mut foun = create_test_foundation(1, visible_start, visible_size);
    let cards = generate_descending_alt_color_starting(visible_start + visible_size, to_add);
    assert_eq!(foun.try_poke(&cards), true);
    foun.poke(&cards);
    assert_eq!(
        foun.get_status().visible,
        generate_descending_alt_color_starting(visible_start, visible_size + to_add)
    );
}

fn check_poke() {
    foundation_poke_case_ok(0, 1, 1);
    foundation_poke_case_ok(0, 2, 1);
    foundation_poke_case_ok(0, 1, 2);
    foundation_poke_case_ok(1, 1, 1);
    foundation_poke_case_ok(2, 2, 2);
}

fn foundation_poke_case_ko(visible_start: usize, visible_size: usize, to_add: Vec<Card>) {
    let mut foun = create_test_foundation(1, visible_start, visible_size);
    assert_eq!(foun.try_poke(&to_add), false);
    foun.poke(&to_add);
    assert_eq!(foun.get_status().visible, generate_descending_alt_color_starting(visible_start, visible_size));
}

fn check_poke_ko() {
    // last card is 10 CLUBS
    foundation_poke_case_ko(0, 4, vec![card(CardSuit::DIAMONDS, CardRank::SIX)]);
    foundation_poke_case_ko(0, 4, vec![card(CardSuit::HEARTS, CardRank::SIX)]);
    foundation_poke_case_ko(0, 4, vec![card(CardSuit::CLUBS, CardRank::NINE)]);
    foundation_poke_case_ko(0, 4, vec![card(CardSuit::SPADES, CardRank::NINE)]);
    // last card is 9 DIAMONDS
    foundation_poke_case_ko(0, 5, vec![card(CardSuit::CLUBS, CardRank::SIX)]);
    foundation_poke_case_ko(0, 4, vec![card(CardSuit::SPADES, CardRank::SIX)]);
    foundation_poke_case_ko(0, 4, vec![card(CardSuit::HEARTS, CardRank::EIGHT)]);
    foundation_poke_case_ko(0, 4, vec![card(CardSuit::DIAMONDS, CardRank::EIGHT)]);
    foundation_poke_case_ko(0, 4, vec![card(CardSuit::DIAMONDS, CardRank::FIVE)]);
}

#[test]
fn foundation_foundation_new() {
    check_new();
}

#[test]
fn card_foundation_new() {
    check_new();
}

#[test]
fn foundation_foundation_new_one() {
    check_new_one();
}

#[test]
fn card_foundation_new_one() {
    check_new_one();
}

#[test]
fn foundation_foundation_peek() {
    check_peek();
}

#[test]
fn card_foundation_peek() {
    check_peek();
}

#[test]
fn foundation_foundation_peek_overflow() {
    check_peek_overflow();
}

#[test]
fn card_foundation_peek_overflow() {
    check_peek_overflow();
}

#[test]
fn foundation_foundation_poke() {
    check_poke();
}

#[test]
fn card_foundation_poke() {
    check_poke();
}

#[test]
fn foundation_foundation_poke_ko() {
    check_poke_ko();
}

#[test]
fn card_foundation_poke_ko() {
    check_poke_ko();
}

#[test]
fn foundation_status() {
    let foun = create_test_foundation(5, 0, 2);
    let status = foun.get_status();
    assert_eq!(status.num_hidden, 5);
    assert_eq!(status.visible.len(), 2);

    let mut foun = create_test_foundation(0, 0, 2);
    let status = foun.get_status();
    assert_eq!(status.num_hidden, 0);
    assert_eq!(status.visible.len(), 2);

    foun.peek(1);
    let status = foun.get_status();
    assert_eq!(status.num_hidden, 0);
    assert_eq!(status.visible.len(), 1);

    foun.peek(1);
    let status = foun.get_status();
    assert_eq!(status.num_hidden, 0);
    assert_eq!(status.visible.len(), 0);
}

#[test]
fn foundation_empty_accepts_only_king() {
    let empty = Foundation::from_parts(Vec::new(), Vec::new());
    assert!(empty.try_poke(&vec![card(CardSuit::CLUBS, CardRank::KING)]));
    assert!(empty.try_poke(&vec![card(CardSuit::HEARTS, CardRank::KING), card(CardSuit::SPADES, CardRank::QUEEN)]));
    assert!(!empty.try_poke(&vec![card(CardSuit::CLUBS, CardRank::QUEEN)]));
    assert!(!empty.try_poke(&Vec::new()));
    let one = create_test_foundation(0, 0, 1);
    assert!(!one.try_poke(&Vec::new()));
}

#[test]
fn foundation_unhide_and_rehide() {
    let hidden = vec![card(CardSuit::CLUBS, CardRank::ACE), card(CardSuit::CLUBS, CardRank::TWO)];
    let mut found = Foundation::from_parts(hidden, vec![card(CardSuit::HEARTS, CardRank::KING)]);
    let taken = found.peek(1);
    assert_eq!(taken, vec![card(CardSuit::HEARTS, CardRank::KING)]);
    let status = found.get_status();
    assert_eq!(status.num_hidden, 1);
    assert_eq!(status.visible, vec![card(CardSuit::CLUBS, CardRank::TWO)]);
    found.undo_peek(&taken);
    let status = found.get_status();
    assert_eq!(status.num_hidden, 2);
    assert_eq!(status.visible, vec![card(CardSuit::HEARTS, CardRank::KING)]);
}

#[test]
fn foundation_undo_poke_hands_back_run() {
    let mut foun = create_test_foundation(1, 0, 2);
    let run = generate_descending_alt_color_starting(2, 3);
    foun.poke(&run);
    assert_eq!(foun.undo_poke(3), run);
    assert_eq!(foun.get_status().visible, generate_descending_alt_color_starting(0, 2));
    assert_eq!(foun.undo_poke(5), Vec::new());
    assert_eq!(foun.get_status().visible.len(), 2);
}

#[test]
fn foundation_slots() {
    let status = FoundationStatus {
        num_hidden: 2,
        visible: vec![card(CardSuit::HEARTS, CardRank::KING)],
    };
    assert_eq!(foundation_slot(&status, 0), FoundationSlot::Hidden);
    assert_eq!(foundation_slot(&status, 1), FoundationSlot::Hidden);
    assert_eq!(foundation_slot(&status, 2), FoundationSlot::Visible(card(CardSuit::HEARTS, CardRank::KING)));
    assert_eq!(foundation_slot(&status, 3), FoundationSlot::Blank);
}
