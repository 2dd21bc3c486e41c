//! Deck construction, shuffling and dealing: four hands of ten and a
//! three-card kitty, partitioning the 43-card deck.

use crate::types::{Card, Suit, SuitedCard};
use vstd::prelude::*;

verus! {

/// The suit at a given position of the deck-building cycle.
pub open spec fn suit_of_index(i: int) -> Suit {
    if i == 0 {
        Suit::Spades
    } else if i == 1 {
        Suit::Clubs
    } else if i == 2 {
        Suit::Diamonds
    } else {
        Suit::Hearts
    }
}

/// The card at a given position of the unshuffled deck: faces 5 through 14 in
/// each of the four suits, then the two low red fours, then the joker.
pub open spec fn deck_card(i: int) -> Card {
    if i < 40 {
        Card::SuitedCard(SuitedCard { face: (5 + i / 4) as usize, suit: suit_of_index(i % 4) })
    } else if i == 40 {
        Card::SuitedCard(SuitedCard { face: 4, suit: Suit::Diamonds })
    } else if i == 41 {
        Card::SuitedCard(SuitedCard { face: 4, suit: Suit::Hearts })
    } else {
        Card::Joker
    }
}

/// The full 43-card deck in build order.
pub open spec fn full_deck() -> Seq<Card> {
    Seq::new(43, |i: int| deck_card(i))
}

/// No card occurs twice in the deck.
pub proof fn lemma_full_deck_no_duplicates()
    ensures
        full_deck().no_duplicates(),
{
    assert forall|i: int, j: int| 0 <= i < j < 43 implies deck_card(i) != deck_card(j) by {
        if j < 40 {
            assert((i / 4) * 4 + i % 4 == i && (j / 4) * 4 + j % 4 == j && 0 <= i % 4 < 4 && 0 <= j
                % 4 < 4 && 0 <= i / 4 && 0 <= j / 4) by (nonlinear_arith)
                requires
                    0 <= i,
                    0 <= j,
            ;
            assert(i / 4 != j / 4 || i % 4 != j % 4);
        }
    }
}

/// The suit at a given position of the deck-building cycle.
fn suit_at(j: usize) -> (s: Suit)
    ensures
        s == suit_of_index(j as int),
{
    if j == 0 {
        Suit::Spades
    } else if j == 1 {
        Suit::Clubs
    } else if j == 2 {
        Suit::Diamonds
    } else {
        Suit::Hearts
    }
}

/// Builds the unshuffled 43-card deck.
pub fn build_deck() -> (deck: Vec<Card>)
    ensures
        deck@ == full_deck(),
{
    let mut deck: Vec<Card> = Vec::new();
    let mut i: usize = 0;
    while i < 40
        invariant
            i <= 40,
            deck@.len() == i,
            forall|k: int| 0 <= k < i ==> deck@[k] == deck_card(k),
        decreases 40 - i,
    {
        deck.push(Card::SuitedCard(SuitedCard { face: 5 + i / 4, suit: suit_at(i % 4) }));
        i = i + 1;
    }
    deck.push(Card::SuitedCard(SuitedCard { face: 4, suit: Suit::Diamonds }));
    deck.push(Card::SuitedCard(SuitedCard { face: 4, suit: Suit::Hearts }));
    deck.push(Card::Joker);
    proof {
        assert(deck@ =~= full_deck());
    }
    deck
}

/// Relies on rand's `SliceRandom::shuffle`, driven by `rand::rng()`: an
/// in-place Fisher-Yates shuffle, which permutes the slice and so keeps its
/// multiset of items. Nothing is promised of the resulting order, which is
/// meant to be unpredictable.
#[verifier::external_body]
fn shuffle_cards(deck: &mut Vec<Card>)
    ensures
        final(deck)@.len() == old(deck)@.len(),
        final(deck)@.to_multiset() == old(deck)@.to_multiset(),
{
    rand::seq::SliceRandom::shuffle(deck.as_mut_slice(), &mut rand::rng());
}

/// Copies `count` cards of `deck` starting at `start`.
fn take_cards(deck: &Vec<Card>, start: usize, count: usize) -> (r: Vec<Card>)
    requires
        deck@.len() == 43,
        start + count <= 43,
    ensures
        r@ == deck@.subrange(start as int, start as int + count as int),
{
    let mut r: Vec<Card> = Vec::new();
    let mut j: usize = 0;
    while j < count
        invariant
            j <= count,
            deck@.len() == 43,
            start + count <= 43,
            r@ == deck@.subrange(start as int, start as int + j as int),
        decreases count - j,
    {
        r.push(deck[start + j]);
        proof {
            assert(r@ =~= deck@.subrange(start as int, start as int + (j + 1) as int));
        }
        j = j + 1;
    }
    r
}

/// Builds the deck, shuffles it, and partitions it into four ten-card hands
/// and a three-card kitty. Together the hands and the kitty hold every card
/// of the 43-card deck exactly once.
pub fn deal() -> (r: (Vec<Vec<Card>>, Vec<Card>))
    ensures
        r.0@.len() == 4,
        forall|i: int| 0 <= i < 4 ==> #[trigger] r.0@[i]@.len() == 10,
        r.1@.len() == 3,
        (r.0@[0]@ + r.0@[1]@ + r.0@[2]@ + r.0@[3]@ + r.1@).to_multiset() == full_deck()
            .to_multiset(),
        (r.0@[0]@ + r.0@[1]@ + r.0@[2]@ + r.0@[3]@ + r.1@).no_duplicates(),
{
    let mut deck = build_deck();
    shuffle_cards(&mut deck);
    let mut hands: Vec<Vec<Card>> = Vec::new();
    hands.push(take_cards(&deck, 0, 10));
    hands.push(take_cards(&deck, 10, 10));
    hands.push(take_cards(&deck, 20, 10));
    hands.push(take_cards(&deck, 30, 10));
    let kitty = take_cards(&deck, 40, 3);
    proof {
        assert(hands@[0]@ + hands@[1]@ + hands@[2]@ + hands@[3]@ + kitty@ =~= deck@);
        lemma_full_deck_no_duplicates();
        full_deck().lemma_multiset_has_no_duplicates();
        deck@.lemma_multiset_has_no_duplicates_conv();
    }
    (hands, kitty)
}

} // verus!
