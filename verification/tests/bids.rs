//! The bid total order and legal-bid computation.

use five_hundred::bidding::Bidding;
use five_hundred::types::{next_bid, Bid, BidSuit, Suit};

fn fresh_bidding() -> Bidding {
    Bidding {
        first_bidder_index: 0,
        current_bidder_index: 0,
        hands: Vec::new(),
        kitty: Vec::new(),
        prev_bids: vec![None, None, None, None],
        highest_bid: None,
        highest_bidder_index: 0,
    }
}

#[test]
fn next_bid_chain_from_pass() {
    let mut chain = Vec::new();
    let mut cur = Bid::Pass;
    while let Some(b) = next_bid(cur) {
        chain.push(b);
        cur = b;
    }
    // 25 tricks bids, Mis, and OpenMis.
    assert_eq!(chain.len(), 27);
    assert_eq!(chain[0], Bid::Tricks(6, BidSuit::Suit(Suit::Spades)));
    assert_eq!(chain[1], Bid::Tricks(6, BidSuit::Suit(Suit::Clubs)));
    assert_eq!(chain[4], Bid::Tricks(6, BidSuit::NoTrumps));
    assert_eq!(chain[5], Bid::Tricks(7, BidSuit::Suit(Suit::Spades)));
    // Mis sits immediately above eight clubs.
    assert_eq!(chain[11], Bid::Tricks(8, BidSuit::Suit(Suit::Clubs)));
    assert_eq!(chain[12], Bid::Mis);
    assert_eq!(chain[13], Bid::Tricks(8, BidSuit::Suit(Suit::Diamonds)));
    // OpenMis is the unique maximum.
    assert_eq!(chain[25], Bid::Tricks(10, BidSuit::NoTrumps));
    assert_eq!(chain[26], Bid::OpenMis);
    assert!(next_bid(Bid::OpenMis).is_none());
    // The tricks bids are exactly counts 6 through 10 with five trump
    // options each, and every chain entry is distinct.
    let tricks: Vec<Bid> = chain
        .iter()
        .copied()
        .filter(|b| matches!(b, Bid::Tricks(_, _)))
        .collect();
    assert_eq!(tricks.len(), 25);
    for a in 0..chain.len() {
        for b in (a + 1)..chain.len() {
            assert!(chain[a] != chain[b]);
        }
    }
}

#[test]
fn fresh_auction_offers_pass_and_all_tricks() {
    let bidding = fresh_bidding();
    let bids = bidding.available_bids(0);
    assert_eq!(bids.len(), 26);
    assert_eq!(bids[0], Bid::Pass);
    assert!(bids.iter().all(|b| matches!(b, Bid::Pass | Bid::Tricks(_, _))));
    assert_eq!(bids[1], Bid::Tricks(6, BidSuit::Suit(Suit::Spades)));
}

#[test]
fn passed_player_gets_nothing() {
    let mut bidding = fresh_bidding();
    bidding.prev_bids[2] = Some(Bid::Pass);
    assert!(bidding.available_bids(2).is_empty());
}

#[test]
fn mis_held_back_until_all_have_bid() {
    let mut bidding = fresh_bidding();
    bidding.prev_bids[0] = Some(Bid::Tricks(8, BidSuit::Suit(Suit::Clubs)));
    bidding.highest_bid = Some(Bid::Tricks(8, BidSuit::Suit(Suit::Clubs)));
    bidding.highest_bidder_index = 0;
    bidding.current_bidder_index = 1;
    // Only one player has bid: the Mis bids are still closed.
    let early = bidding.available_bids(1);
    assert!(!early.contains(&Bid::Mis));
    assert!(!early.contains(&Bid::OpenMis));
    assert_eq!(early[0], Bid::Pass);
    assert_eq!(early[1], Bid::Tricks(8, BidSuit::Suit(Suit::Diamonds)));

    // Once all four have bid, Mis opens up right above eight clubs.
    bidding.prev_bids[1] = Some(Bid::Tricks(6, BidSuit::Suit(Suit::Spades)));
    bidding.prev_bids[2] = Some(Bid::Tricks(6, BidSuit::Suit(Suit::Clubs)));
    bidding.prev_bids[3] = Some(Bid::Tricks(7, BidSuit::Suit(Suit::Hearts)));
    let late = bidding.available_bids(1);
    assert_eq!(late[0], Bid::Pass);
    assert_eq!(late[1], Bid::Mis);
    assert_eq!(late[2], Bid::Tricks(8, BidSuit::Suit(Suit::Diamonds)));
    assert!(late.contains(&Bid::OpenMis));
}

#[test]
fn only_open_mis_tops_ten_no_trumps() {
    let mut bidding = fresh_bidding();
    bidding.prev_bids[0] = Some(Bid::Tricks(10, BidSuit::NoTrumps));
    bidding.prev_bids[1] = Some(Bid::Tricks(6, BidSuit::Suit(Suit::Spades)));
    bidding.prev_bids[2] = Some(Bid::Tricks(7, BidSuit::Suit(Suit::Spades)));
    bidding.prev_bids[3] = Some(Bid::Tricks(8, BidSuit::Suit(Suit::Spades)));
    bidding.highest_bid = Some(Bid::Tricks(10, BidSuit::NoTrumps));
    bidding.highest_bidder_index = 0;
    bidding.current_bidder_index = 1;
    let bids = bidding.available_bids(1);
    assert_eq!(bids, vec![Bid::Pass, Bid::OpenMis]);
}

#[test]
fn every_offered_bid_outranks_the_standing_highest() {
    let mut bidding = fresh_bidding();
    let high = Bid::Tricks(8, BidSuit::Suit(Suit::Hearts));
    bidding.prev_bids[3] = Some(high);
    bidding.highest_bid = Some(high);
    bidding.highest_bidder_index = 3;
    let bids = bidding.available_bids(0);
    assert_eq!(bids[0], Bid::Pass);
    // Everything after Pass climbs strictly, starting above eight hearts.
    assert_eq!(bids[1], Bid::Tricks(8, BidSuit::NoTrumps));
    assert!(!bids[1..].contains(&high));
    assert!(!bids[1..].contains(&Bid::Tricks(8, BidSuit::Suit(Suit::Diamonds))));
}
