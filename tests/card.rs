use klondike::card::{Card, CardRank, CardSuit};

fn card_alternating_check_case(
    first_suit: CardSuit,
    first_rank: CardRank,
    second_suit: CardSuit,
    second_rank: CardRank,
    result: bool,
) {
    assert_eq!(
        Card::check_alternate_colors_and_descending_rank(
            Card { suit: first_suit, rank: first_rank },
            Card { suit: second_suit, rank: second_rank }
        ),
        result
    );
}

#[test]
fn card_alternating_check() {
    card_alternating_check_case(CardSuit::DIAMONDS, CardRank::FIVE, CardSuit::CLUBS, CardRank::FOUR, true);
    card_alternating_check_case(CardSuit::DIAMONDS, CardRank::FIVE, CardSuit::HEARTS, CardRank::FOUR, false);
    card_alternating_check_case(CardSuit::DIAMONDS, CardRank::FIVE, CardSuit::SPADES, CardRank::FOUR, true);
    card_alternating_check_case(CardSuit::DIAMONDS, CardRank::FIVE, CardSuit::DIAMONDS, CardRank::FOUR, false);
    card_alternating_check_case(CardSuit::DIAMONDS, CardRank::FIVE, CardSuit::CLUBS, CardRank::THREE, false);
    card_alternating_check_case(CardSuit::DIAMONDS, CardRank::FIVE, CardSuit::HEARTS, CardRank::THREE, false);
    card_alternating_check_case(CardSuit::DIAMONDS, CardRank::FIVE, CardSuit::SPADES, CardRank::THREE, false);
    card_alternating_check_case(CardSuit::DIAMONDS, CardRank::FIVE, CardSuit::DIAMONDS, CardRank::THREE, false);
}

#[test]
fn rank_values_run_from_ace_to_king() {
    let ranks = CardRank::all();
    assert_eq!(ranks.len(), 13);
    for (i, rank) in ranks.iter().enumerate() {
        assert_eq!(rank.value(), i as u32 + 1);
    }
    assert_eq!(CardRank::ACE.value(), 1);
    assert_eq!(CardRank::KING.value(), 13);
}

#[test]
fn suit_colours() {
    assert!(CardSuit::DIAMONDS.is_red());
    assert!(CardSuit::HEARTS.is_red());
    assert!(!CardSuit::CLUBS.is_red());
    assert!(!CardSuit::SPADES.is_red());
    assert_eq!(CardSuit::all(), vec![CardSuit::CLUBS, CardSuit::DIAMONDS, CardSuit::HEARTS, CardSuit::SPADES]);
}

#[test]
fn alternating_check_across_colours() {
    let king_black = Card { suit: CardSuit::SPADES, rank: CardRank::KING };
    let queen_red = Card { suit: CardSuit::HEARTS, rank: CardRank::QUEEN };
    assert!(Card::check_alternate_colors_and_descending_rank(king_black, queen_red));
    assert!(!Card::check_alternate_colors_and_descending_rank(queen_red, king_black));
}
