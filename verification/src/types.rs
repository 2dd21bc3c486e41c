//! Card and bid values, and the strict total order on bids that drives the
//! auction.

use vstd::prelude::*;

verus! {

/// One of the four card suits.
#[derive(Clone, Copy, Debug, PartialEq, Eq, Structural)]
pub enum Suit {
    Spades,
    Clubs,
    Diamonds,
    Hearts,
}

/// The trump designation attached to a tricks bid.
#[derive(Clone, Copy, Debug, PartialEq, Eq, Structural)]
pub enum BidSuit {
    Suit(Suit),
    NoTrumps,
}

/// A bid in the auction. `Tricks(count, trump)` carries a count in `[6, 10]`.
#[derive(Clone, Copy, Debug, PartialEq, Eq, Structural)]
pub enum Bid {
    Tricks(usize, BidSuit),
    Mis,
    OpenMis,
    Pass,
}

/// A suited card. The face is in `[4, 14]`, with the ace represented by 14;
/// only the red suits carry a 4.
#[derive(Clone, Copy, Debug, PartialEq, Eq, Structural)]
pub struct SuitedCard {
    pub face: usize,
    pub suit: Suit,
}

/// A card of the 43-card deck.
#[derive(Clone, Copy, Debug, PartialEq, Eq, Structural)]
pub enum Card {
    SuitedCard(SuitedCard),
    Joker,
}

/// A card committed to a trick; a played joker carries its chosen suit.
#[derive(Clone, Copy, Debug, PartialEq, Eq, Structural)]
pub enum Play {
    SuitedCard(SuitedCard),
    Joker(Suit),
}

/// Position of a suit in the per-count bidding cycle: spades lowest, then
/// clubs, diamonds, hearts.
pub open spec fn suit_rank(s: Suit) -> int {
    match s {
        Suit::Spades => 0,
        Suit::Clubs => 1,
        Suit::Diamonds => 2,
        Suit::Hearts => 3,
    }
}

/// Position of a trump designation in the per-count cycle; no-trumps caps the
/// cycle above hearts.
pub open spec fn bid_suit_rank(bs: BidSuit) -> int {
    match bs {
        BidSuit::Suit(s) => suit_rank(s),
        BidSuit::NoTrumps => 4,
    }
}

/// Bids whose shape the auction admits: a tricks count must lie in `[6, 10]`.
pub open spec fn valid_bid(b: Bid) -> bool {
    match b {
        Bid::Tricks(c, _) => 6 <= c <= 10,
        _ => true,
    }
}

/// Position of a bid in the auction's strict total order. Pass sits at the
/// bottom, the 25 tricks bids climb by count and then by trump, Mis is
/// interleaved immediately above eight clubs, and OpenMis is the unique
/// maximum.
pub open spec fn bid_rank(b: Bid) -> int {
    match b {
        Bid::Pass => 0,
        Bid::Tricks(c, bs) => {
            let step = (c - 6) * 5 + bid_suit_rank(bs);
            if step <= 11 {
                step + 1
            } else {
                step + 2
            }
        },
        Bid::Mis => 13,
        Bid::OpenMis => 27,
    }
}

/// The trump designation at a given position of the per-count cycle.
pub open spec fn suit_of_rank(r: int) -> BidSuit {
    if r == 0 {
        BidSuit::Suit(Suit::Spades)
    } else if r == 1 {
        BidSuit::Suit(Suit::Clubs)
    } else if r == 2 {
        BidSuit::Suit(Suit::Diamonds)
    } else if r == 3 {
        BidSuit::Suit(Suit::Hearts)
    } else {
        BidSuit::NoTrumps
    }
}

/// The bid at a given position of the total order; inverse of `bid_rank` on
/// the ranks `[0, 27]`.
pub open spec fn bid_of_rank(r: int) -> Bid {
    if r == 0 {
        Bid::Pass
    } else if r == 13 {
        Bid::Mis
    } else if r == 27 {
        Bid::OpenMis
    } else {
        let step = if r <= 12 {
            r - 1
        } else {
            r - 2
        };
        Bid::Tricks((6 + step / 5) as usize, suit_of_rank(step % 5))
    }
}

/// The bid one position above the given one, or `None` for OpenMis, which no
/// bid outranks.
pub fn next_bid(bid: Bid) -> (r: Option<Bid>)
    requires
        valid_bid(bid),
    ensures
        (r is Some) <==> bid != Bid::OpenMis,
        r matches Some(b) ==> valid_bid(b) && b != Bid::Pass && bid_rank(b) == bid_rank(bid) + 1,
{
    match bid {
        Bid::Pass => Some(Bid::Tricks(6, BidSuit::Suit(Suit::Spades))),
        // Mis sits between eight clubs and eight diamonds.
        Bid::Tricks(8, BidSuit::Suit(Suit::Clubs)) => Some(Bid::Mis),
        Bid::Mis => Some(Bid::Tricks(8, BidSuit::Suit(Suit::Diamonds))),
        Bid::Tricks(count, suit) => {
            let new_count: usize = if suit == BidSuit::NoTrumps {
                count + 1
            } else {
                count
            };
            if new_count == 11 {
                return Some(Bid::OpenMis);
            }
            let new_suit = match suit {
                BidSuit::Suit(Suit::Spades) => BidSuit::Suit(Suit::Clubs),
                BidSuit::Suit(Suit::Clubs) => BidSuit::Suit(Suit::Diamonds),
                BidSuit::Suit(Suit::Diamonds) => BidSuit::Suit(Suit::Hearts),
                BidSuit::Suit(Suit::Hearts) => BidSuit::NoTrumps,
                BidSuit::NoTrumps => BidSuit::Suit(Suit::Spades),
            };
            Some(Bid::Tricks(new_count, new_suit))
        },
        // No way to outbid OpenMis.
        Bid::OpenMis => None,
    }
}

/// `bid_of_rank` inverts `bid_rank` on every valid bid.
pub proof fn lemma_bid_rank_inverse(b: Bid)
    requires
        valid_bid(b),
    ensures
        0 <= bid_rank(b) <= 27,
        bid_of_rank(bid_rank(b)) == b,
{
    match b {
        Bid::Tricks(c, bs) => {
            let step = (c - 6) * 5 + bid_suit_rank(bs);
            assert(0 <= bid_suit_rank(bs) < 5);
            assert(step / 5 == c - 6 && step % 5 == bid_suit_rank(bs)) by (nonlinear_arith)
                requires
                    0 <= bid_suit_rank(bs) < 5,
                    step == (c - 6) * 5 + bid_suit_rank(bs),
                    6 <= c <= 10,
            ;
        },
        _ => {},
    }
}

/// `bid_rank` inverts `bid_of_rank` on every rank in `[0, 27]`.
pub proof fn lemma_bid_of_rank_inverse(r: int)
    requires
        0 <= r <= 27,
    ensures
        valid_bid(bid_of_rank(r)),
        bid_rank(bid_of_rank(r)) == r,
{
    if r != 0 && r != 13 && r != 27 {
        let step = if r <= 12 {
            r - 1
        } else {
            r - 2
        };
        assert(0 <= step <= 24);
        assert(0 <= step / 5 <= 4 && 0 <= step % 5 <= 4 && (step / 5) * 5 + step % 5 == step)
            by (nonlinear_arith)
            requires
                0 <= step <= 24,
        ;
    }
}

/// The law of the auction's order: `bid_rank` embeds the valid bids into the
/// ranks `[0, 27]` as a bijection, so the successor relation of `next_bid` is
/// a strict total order. Pass is the minimum and OpenMis the unique maximum;
/// every rank strictly between them, except rank 13 which is Mis, is one of
/// the 25 tricks bids (counts 6 through 10, five trump options each), in
/// ascending order.
pub proof fn lemma_bid_order_total()
    ensures
        forall|b: Bid| valid_bid(b) ==> 0 <= #[trigger] bid_rank(b) <= 27,
        forall|b: Bid| valid_bid(b) ==> (#[trigger] bid_rank(b) == 27 <==> b == Bid::OpenMis),
        forall|a: Bid, b: Bid|
            valid_bid(a) && valid_bid(b) && #[trigger] bid_rank(a) == #[trigger] bid_rank(b)
                ==> a == b,
        forall|r: int| 0 <= r <= 27 ==> valid_bid(#[trigger] bid_of_rank(r)),
        forall|r: int| 0 <= r <= 27 ==> bid_rank(#[trigger] bid_of_rank(r)) == r,
        forall|r: int| 1 <= r <= 26 && r != 13 ==> (#[trigger] bid_of_rank(r)) is Tricks,
        bid_of_rank(0) == Bid::Pass,
        bid_of_rank(13) == Bid::Mis,
        bid_of_rank(27) == Bid::OpenMis,
{
    assert forall|b: Bid| valid_bid(b) implies 0 <= #[trigger] bid_rank(b) <= 27 by {
        lemma_bid_rank_inverse(b);
    }
    assert forall|b: Bid| valid_bid(b) implies (#[trigger] bid_rank(b) == 27 <==> b
        == Bid::OpenMis) by {
        lemma_bid_rank_inverse(b);
    }
    assert forall|a: Bid, b: Bid|
        valid_bid(a) && valid_bid(b) && #[trigger] bid_rank(a) == #[trigger] bid_rank(
            b,
        ) implies a == b by {
        lemma_bid_rank_inverse(a);
        lemma_bid_rank_inverse(b);
    }
    assert forall|r: int| 0 <= r <= 27 implies valid_bid(#[trigger] bid_of_rank(r)) && bid_rank(
        bid_of_rank(r),
    ) == r by {
        lemma_bid_of_rank_inverse(r);
    }
}

} // verus!
