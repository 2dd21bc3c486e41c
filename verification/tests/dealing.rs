//! Deck construction and dealing.

use five_hundred::dealer::{build_deck, deal};
use five_hundred::types::{Card, Suit, SuitedCard};

fn card_key(c: &Card) -> (u8, u8) {
    match c {
        Card::SuitedCard(SuitedCard { face, suit }) => {
            let s = match suit {
                Suit::Spades => 0,
                Suit::Clubs => 1,
                Suit::Diamonds => 2,
                Suit::Hearts => 3,
            };
            (s, *face as u8)
        },
        Card::Joker => (4, 0),
    }
}

fn expected_deck() -> Vec<Card> {
    let mut deck = Vec::new();
    for face in 5..15 {
        for suit in [Suit::Spades, Suit::Clubs, Suit::Diamonds, Suit::Hearts] {
            deck.push(Card::SuitedCard(SuitedCard { face, suit }));
        }
    }
    deck.push(Card::SuitedCard(SuitedCard { face: 4, suit: Suit::Diamonds }));
    deck.push(Card::SuitedCard(SuitedCard { face: 4, suit: Suit::Hearts }));
    deck.push(Card::Joker);
    deck
}

#[test]
fn built_deck_holds_the_43_cards() {
    let deck = build_deck();
    assert_eq!(deck, expected_deck());
    assert_eq!(deck.len(), 43);
}

#[test]
fn deal_partitions_the_deck() {
    let (hands, kitty) = deal();
    assert_eq!(hands.len(), 4);
    for hand in &hands {
        assert_eq!(hand.len(), 10);
    }
    assert_eq!(kitty.len(), 3);

    let mut all: Vec<Card> = Vec::new();
    for hand in &hands {
        all.extend_from_slice(hand);
    }
    all.extend_from_slice(&kitty);
    all.sort_by_key(card_key);

    let mut expected = expected_deck();
    expected.sort_by_key(card_key);
    assert_eq!(all, expected);
}
