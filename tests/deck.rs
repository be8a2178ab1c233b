use klondike::card::{Card, CardRank, CardSuit};
use klondike::containers::CardOrigin;
use klondike::deck::Deck;

fn card(suit: CardSuit, rank: CardRank) -> Card {
    Card { suit, rank }
}

fn assert_peek_one_returns<O: CardOrigin>(origin: &mut O, expected: Card) {
    match origin.try_peek(1) {
        None => panic!("No card returned for peek(1) having cards in deck"),
        Some(result) => {
            assert_eq!(result.len(), 1);
            assert_eq!(result[0], expected);
        }
    }
    let result = origin.peek(1);
    assert_eq!(result.len(), 1);
    assert_eq!(result[0], expected);
}

fn test_stock() -> Vec<Card> {
    vec![
        card(CardSuit::DIAMONDS, CardRank::ACE),
        card(CardSuit::DIAMONDS, CardRank::TWO),
        card(CardSuit::DIAMONDS, CardRank::THREE),
    ]
}

fn test_waste() -> Vec<Card> {
    vec![
        card(CardSuit::CLUBS, CardRank::ACE),
        card(CardSuit::CLUBS, CardRank::TWO),
        card(CardSuit::CLUBS, CardRank::THREE),
    ]
}

fn create_test_deck() -> Deck {
    Deck::from_parts(test_stock(), test_waste())
}

fn check_peek_one() {
    let mut deck = create_test_deck();
    assert_peek_one_returns(&mut deck, card(CardSuit::CLUBS, CardRank::THREE));
    assert_peek_one_returns(&mut deck, card(CardSuit::CLUBS, CardRank::TWO));
    assert_peek_one_returns(&mut deck, card(CardSuit::CLUBS, CardRank::ACE));
    assert_eq!(deck.peek(1), Vec::new());
}

fn check_peek_one_empty() {
    let mut deck = Deck::from_parts(test_stock(), Vec::new());
    assert_eq!(deck.try_peek(1), None);
    assert_eq!(deck.peek(1).len(), 0);
}

fn check_peek_not_one() {
    let mut deck = create_test_deck();
    assert_eq!(deck.try_peek(2), None);
    assert_eq!(deck.peek(2).len(), 0);
    assert_eq!(deck.try_peek(0), None);
    assert_eq!(deck.peek(0).len(), 0);
}

fn check_init() {
    let cards = vec![
        card(CardSuit::DIAMONDS, CardRank::ACE),
        card(CardSuit::DIAMONDS, CardRank::TWO),
        card(CardSuit::DIAMONDS, CardRank::THREE),
        card(CardSuit::CLUBS, CardRank::ACE),
        card(CardSuit::CLUBS, CardRank::TWO),
        card(CardSuit::CLUBS, CardRank::THREE),
    ];
    let deck = Deck::new(&cards);
    let status = deck.get_status();
    assert_eq!(status.cards_on_stock, 5);
    assert_eq!(status.cards_on_waste, 1);
    assert_eq!(status.top_card_on_waste, Some(card(CardSuit::CLUBS, CardRank::THREE)));
}

fn assert_deck(deck: &Deck, stock_len: u32, waste_len: u32, suit: CardSuit, rank: CardRank) {
    let status = deck.get_status();
    assert_eq!(status.cards_on_stock, stock_len);
    assert_eq!(status.cards_on_waste, waste_len);
    assert_eq!(deck.try_peek(1), Some(vec![Card { suit, rank }]));
}

fn check_take() {
    let mut deck = create_test_deck();
    deck.take();
    assert_deck(&deck, 2, 4, CardSuit::DIAMONDS, CardRank::THREE);
    deck.take();
    assert_deck(&deck, 1, 5, CardSuit::DIAMONDS, CardRank::TWO);
    deck.take();
    assert_deck(&deck, 0, 6, CardSuit::DIAMONDS, CardRank::ACE);
    deck.take();
    assert_deck(&deck, 5, 1, CardSuit::CLUBS, CardRank::ACE);
    deck.take();
    assert_deck(&deck, 4, 2, CardSuit::CLUBS, CardRank::TWO);
    deck.take();
    assert_deck(&deck, 3, 3, CardSuit::CLUBS, CardRank::THREE);
    deck.take();
    assert_deck(&deck, 2, 4, CardSuit::DIAMONDS, CardRank::THREE);
}

fn check_take_empty() {
    let mut deck = Deck::from_parts(Vec::new(), Vec::new());
    deck.take();
    let status = deck.get_status();
    assert_eq!(status.cards_on_stock, 0);
    assert_eq!(status.cards_on_waste, 0);
}

#[test]
fn deck_deck_peek_one() {
    check_peek_one();
}

#[test]
fn card_deck_peek_one() {
    check_peek_one();
}

#[test]
fn deck_deck_peek_one_empty() {
    check_peek_one_empty();
}

#[test]
fn card_deck_peek_one_empty() {
    check_peek_one_empty();
}

#[test]
fn deck_deck_peek_not_one() {
    check_peek_not_one();
}

#[test]
fn card_deck_peek_not_one() {
    check_peek_not_one();
}

#[test]
fn deck_deck_init() {
    check_init();
}

#[test]
fn card_deck_init() {
    check_init();
}

#[test]
fn deck_deck_take() {
    check_take();
}

#[test]
fn card_deck_take() {
    check_take();
}

#[test]
fn deck_deck_take_empty() {
    check_take_empty();
}

#[test]
fn card_deck_take_empty() {
    check_take_empty();
}

#[test]
fn deck_satus() {
    let mut deck = create_test_deck();
    let status = deck.get_status();
    assert_eq!(status.cards_on_stock, 3);
    assert_eq!(status.cards_on_waste, 3);
    assert_eq!(status.top_card_on_waste, Some(card(CardSuit::CLUBS, CardRank::THREE)));

    deck.peek(1);

    let status = deck.get_status();
    assert_eq!(status.cards_on_stock, 3);
    assert_eq!(status.cards_on_waste, 2);
    assert_eq!(status.top_card_on_waste, Some(card(CardSuit::CLUBS, CardRank::TWO)));

    let deck = Deck::from_parts(test_stock(), Vec::new());
    let status = deck.get_status();
    assert_eq!(status.cards_on_stock, 3);
    assert_eq!(status.cards_on_waste, 0);
    assert_eq!(status.top_card_on_waste, None);

    let deck = Deck::from_parts(Vec::new(), Vec::new());
    let status = deck.get_status();
    assert_eq!(status.cards_on_stock, 0);
    assert_eq!(status.cards_on_waste, 0);
    assert_eq!(status.top_card_on_waste, None);

    let deck = Deck::from_parts(Vec::new(), test_waste());
    let status = deck.get_status();
    assert_eq!(status.cards_on_stock, 0);
    assert_eq!(status.cards_on_waste, 3);
    assert_eq!(status.top_card_on_waste, Some(card(CardSuit::CLUBS, CardRank::THREE)));
}

#[test]
fn deck_undo_take_restores_through_turn_over() {
    let mut deck = create_test_deck();
    let mut statuses = Vec::new();
    for _ in 0..30 {
        statuses.push(deck.get_status());
        deck.take();
    }
    while let Some(expected) = statuses.pop() {
        deck.undo_take();
        assert_eq!(deck.get_status(), expected);
    }
    assert_eq!(deck.try_peek(1), Some(vec![card(CardSuit::CLUBS, CardRank::THREE)]));
}

#[test]
fn deck_undo_take_on_empty_deck() {
    let mut deck = Deck::from_parts(Vec::new(), Vec::new());
    deck.take();
    deck.undo_take();
    let status = deck.get_status();
    assert_eq!(status.cards_on_stock, 0);
    assert_eq!(status.cards_on_waste, 0);
}

#[test]
fn deck_undo_peek_puts_card_back() {
    let mut deck = create_test_deck();
    let taken = deck.peek(1);
    assert_eq!(deck.get_status().cards_on_waste, 2);
    deck.undo_peek(&taken);
    assert_eq!(deck.get_status().cards_on_waste, 3);
    assert_eq!(deck.try_peek(1), Some(vec![card(CardSuit::CLUBS, CardRank::THREE)]));
}
