//! Whole-session scenarios: joining, bidding, the kitty, and aborts.

use five_hundred::api::{ClientId, CurrentState, State, Step};
use five_hundred::session::{ClientEvent, ClientEventPayload, Session};
use five_hundred::stage::Stage;
use five_hundred::types::{Bid, BidSuit, Card, Suit};

fn act(session: &mut Session, id: &str, step: Step) -> Vec<(ClientId, State)> {
    let mut outbox = Vec::new();
    let event = ClientEvent { id: id.to_string(), payload: ClientEventPayload::Step(step) };
    session.process_event(&event, &mut outbox);
    outbox
}

fn disconnect(session: &mut Session, id: &str) -> Vec<(ClientId, State)> {
    let mut outbox = Vec::new();
    let event = ClientEvent { id: id.to_string(), payload: ClientEventPayload::Disconnect };
    session.process_event(&event, &mut outbox);
    outbox
}

/// Joins the four players c0..c3 and returns the outbox of the fourth join.
fn join_four(session: &mut Session) -> Vec<(ClientId, State)> {
    act(session, "c0", Step::Join(0));
    act(session, "c1", Step::Join(0));
    act(session, "c2", Step::Join(0));
    act(session, "c3", Step::Join(0))
}

fn to(outbox: &[(ClientId, State)], id: &str) -> Vec<usize> {
    outbox
        .iter()
        .enumerate()
        .filter(|(_, m)| m.0 == id)
        .map(|(k, _)| k)
        .collect()
}

#[test]
fn four_joins_deal_a_game() {
    let mut session = Session::new();
    let first = act(&mut session, "c0", Step::Join(0));
    assert_eq!(first.len(), 1);
    assert!(matches!(first[0].1.state, CurrentState::PlayerJoined));

    act(&mut session, "c1", Step::Join(0));
    act(&mut session, "c2", Step::Join(0));
    let fourth = act(&mut session, "c3", Step::Join(0));

    // Four join notices, then a hand and a turn cue for each player.
    assert_eq!(fourth.len(), 12);
    for k in 0..4 {
        assert!(matches!(fourth[k].1.state, CurrentState::PlayerJoined));
    }

    // Every player receives HandDealt; the hands are disjoint ten-card
    // subsets of the deck.
    let mut seen: Vec<Card> = Vec::new();
    let mut hand_dealt = 0;
    for (_, state) in &fourth {
        if matches!(state.state, CurrentState::HandDealt) {
            hand_dealt += 1;
            let hand = &state.history.game_history.as_ref().unwrap().hand;
            assert_eq!(hand.len(), 10);
            for c in hand {
                assert!(!seen.contains(c));
                seen.push(*c);
            }
        }
    }
    assert_eq!(hand_dealt, 4);
    assert_eq!(seen.len(), 40);

    // The first bidder (player 0 of the first game) alone has options.
    let mut your_bid = 0;
    for (id, state) in &fourth {
        match state.state {
            CurrentState::WaitingForYourBid => {
                your_bid += 1;
                assert_eq!(id, "c0");
                let options = state
                    .history
                    .game_history
                    .as_ref()
                    .unwrap()
                    .bidding_history
                    .as_ref()
                    .unwrap()
                    .bid_options
                    .as_ref()
                    .unwrap();
                assert!(!options.is_empty());
            },
            CurrentState::WaitingForTheirBid => {
                let bh = state.history.game_history.as_ref().unwrap();
                assert!(bh.bidding_history.as_ref().unwrap().bid_options.is_none());
            },
            _ => {},
        }
    }
    assert_eq!(your_bid, 1);
}

#[test]
fn bid_out_of_turn_is_rejected() {
    let mut session = Session::new();
    join_four(&mut session);

    // c1 is not the current bidder.
    let out = act(&mut session, "c1", Step::MakeBid(Bid::Pass));
    assert_eq!(out.len(), 1);
    assert_eq!(out[0].0, "c1");
    assert!(matches!(out[0].1.state, CurrentState::Error));
    assert_eq!(out[0].1.history.error, Some("Not your turn to bid.".to_string()));

    // The auction is unchanged: c0 can still bid.
    match session.stage.as_ref().unwrap() {
        Stage::Bidding(b) => {
            assert_eq!(b.current_bidder_index, 0);
            assert!(b.prev_bids.iter().all(|p| p.is_none()));
        },
        _ => panic!("expected the auction to be live"),
    }
}

#[test]
fn unavailable_bid_is_rejected() {
    let mut session = Session::new();
    join_four(&mut session);

    // Mis is closed until all four players have bid.
    let out = act(&mut session, "c0", Step::MakeBid(Bid::Mis));
    assert_eq!(out.len(), 1);
    assert!(matches!(out[0].1.state, CurrentState::Error));
    assert_eq!(
        out[0].1.history.error,
        Some("You tried to make a bid that is unavailable to you.".to_string())
    );
}

#[test]
fn auction_resolves_to_the_single_bidder() {
    let mut session = Session::new();
    join_four(&mut session);

    let bid = Bid::Tricks(6, BidSuit::Suit(Suit::Spades));
    let out = act(&mut session, "c0", Step::MakeBid(bid));
    // Everyone hears the bid, then the next bidder is cued.
    assert_eq!(out.len(), 8);
    for k in 0..4 {
        assert!(matches!(out[k].1.state, CurrentState::PlayerBid));
    }

    act(&mut session, "c1", Step::MakeBid(Bid::Pass));
    act(&mut session, "c2", Step::MakeBid(Bid::Pass));
    let last = act(&mut session, "c3", Step::MakeBid(Bid::Pass));

    // Third pass beside a standing bid: the auction resolves to c0.
    let bid_won: Vec<&(ClientId, State)> = last
        .iter()
        .filter(|m| matches!(m.1.state, CurrentState::BidWon))
        .collect();
    assert_eq!(bid_won.len(), 4);
    for m in &bid_won {
        let w = m.1.history.game_history.as_ref().unwrap().winning_bid_history.as_ref().unwrap();
        assert_eq!(w.winning_bidder_index, 0);
        assert_eq!(w.winning_bid, bid);
    }

    // The kitty goes to the winner alone.
    let kitty_cues = to(&last, "c0");
    let your_kitty: Vec<&(ClientId, State)> = last
        .iter()
        .filter(|m| matches!(m.1.state, CurrentState::WaitingForYourKitty))
        .collect();
    assert_eq!(your_kitty.len(), 1);
    assert_eq!(your_kitty[0].0, "c0");
    let kitty = your_kitty[0]
        .1
        .history
        .game_history
        .as_ref()
        .unwrap()
        .winning_bid_history
        .as_ref()
        .unwrap()
        .kitty
        .as_ref()
        .unwrap();
    assert_eq!(kitty.len(), 3);
    assert!(!kitty_cues.is_empty());

    match session.stage.as_ref().unwrap() {
        Stage::BidWon(w) => assert_eq!(w.winning_bidder_index, 0),
        _ => panic!("expected the kitty decision to be live"),
    }
}

#[test]
fn wrong_discard_count_is_rejected() {
    let mut session = Session::new();
    join_four(&mut session);
    act(&mut session, "c0", Step::MakeBid(Bid::Tricks(6, BidSuit::Suit(Suit::Spades))));
    act(&mut session, "c1", Step::MakeBid(Bid::Pass));
    act(&mut session, "c2", Step::MakeBid(Bid::Pass));
    act(&mut session, "c3", Step::MakeBid(Bid::Pass));

    let hand_before = session.players[0].1.game_history.as_ref().unwrap().hand.clone();
    let two = vec![hand_before[0], hand_before[1]];
    let out = act(&mut session, "c0", Step::DiscardCards(two));
    assert_eq!(out.len(), 1);
    assert!(matches!(out[0].1.state, CurrentState::Error));
    assert_eq!(
        out[0].1.history.error,
        Some("You tried to discard the wrong number of cards.".to_string())
    );

    // Hand, kitty and stage are unchanged.
    let hand_after = &session.players[0].1.game_history.as_ref().unwrap().hand;
    assert_eq!(*hand_after, hand_before);
    match session.stage.as_ref().unwrap() {
        Stage::BidWon(w) => assert_eq!(w.kitty.len(), 3),
        _ => panic!("expected the kitty decision still to be live"),
    }
}

#[test]
fn valid_discard_moves_the_table_into_play() {
    let mut session = Session::new();
    join_four(&mut session);
    act(&mut session, "c0", Step::MakeBid(Bid::Tricks(6, BidSuit::Suit(Suit::Spades))));
    act(&mut session, "c1", Step::MakeBid(Bid::Pass));
    act(&mut session, "c2", Step::MakeBid(Bid::Pass));
    act(&mut session, "c3", Step::MakeBid(Bid::Pass));

    let hand = session.players[0].1.game_history.as_ref().unwrap().hand.clone();
    let kitty = session.players[0]
        .1
        .game_history
        .as_ref()
        .unwrap()
        .winning_bid_history
        .as_ref()
        .unwrap()
        .kitty
        .as_ref()
        .unwrap()
        .clone();
    // Discard one card of the hand and two of the kitty.
    let discards = vec![hand[3], kitty[0], kitty[2]];
    let out = act(&mut session, "c0", Step::DiscardCards(discards.clone()));
    assert_eq!(out.len(), 4);
    for m in &out {
        assert!(matches!(m.1.state, CurrentState::WaitingForTheirPlay));
    }

    let g = session.players[0].1.game_history.as_ref().unwrap();
    assert_eq!(g.hand.len(), 10);
    for d in &discards {
        assert!(!g.hand.contains(d));
    }
    assert!(g.hand.contains(&kitty[1]));
    assert!(g.winning_bid_history.as_ref().unwrap().kitty.is_none());
    assert!(matches!(session.stage.as_ref().unwrap(), Stage::Playing(_)));
}

#[test]
fn quit_aborts_the_match_for_everyone() {
    let mut session = Session::new();
    join_four(&mut session);
    // Mid-auction, an active player leaves.
    act(&mut session, "c0", Step::MakeBid(Bid::Tricks(6, BidSuit::Suit(Suit::Spades))));
    let out = act(&mut session, "c1", Step::Quit);

    // The other three roster members hear about it.
    assert_eq!(out.len(), 3);
    for m in &out {
        assert!(m.0 != "c1");
        assert!(matches!(m.1.state, CurrentState::MatchAborted));
        let reason = &m.1.history.match_history.as_ref().unwrap().match_aborted_reason;
        assert_eq!(*reason, Some("Player left.".to_string()));
    }

    // Every later action is answered with the same notice.
    let later = act(&mut session, "c2", Step::Poll);
    assert_eq!(later.len(), 1);
    assert!(matches!(later[0].1.state, CurrentState::MatchAborted));
    let again = act(&mut session, "c1", Step::MakeBid(Bid::Pass));
    assert_eq!(again.len(), 1);
    assert!(matches!(again[0].1.state, CurrentState::MatchAborted));
}

#[test]
fn disconnect_aborts_the_match() {
    let mut session = Session::new();
    join_four(&mut session);
    let out = disconnect(&mut session, "c2");
    assert_eq!(out.len(), 3);
    for m in &out {
        assert!(m.0 != "c2");
        assert!(matches!(m.1.state, CurrentState::MatchAborted));
        let reason = &m.1.history.match_history.as_ref().unwrap().match_aborted_reason;
        assert_eq!(*reason, Some("Player disconnected.".to_string()));
    }
    assert!(matches!(session.stage.as_ref().unwrap(), Stage::Aborted(_)));
}

#[test]
fn all_four_passes_redeal_the_game() {
    let mut session = Session::new();
    join_four(&mut session);
    act(&mut session, "c0", Step::MakeBid(Bid::Pass));
    act(&mut session, "c1", Step::MakeBid(Bid::Pass));
    act(&mut session, "c2", Step::MakeBid(Bid::Pass));
    let out = act(&mut session, "c3", Step::MakeBid(Bid::Pass));

    // Four bid notices, then a fresh deal: hands and turn cues again.
    assert_eq!(out.len(), 12);
    match session.stage.as_ref().unwrap() {
        Stage::Bidding(b) => {
            assert_eq!(b.first_bidder_index, 1);
            assert_eq!(b.current_bidder_index, 1);
            assert!(b.prev_bids.iter().all(|p| p.is_none()));
        },
        _ => panic!("expected a redealt auction"),
    }
}

#[test]
fn open_mis_ends_the_auction_immediately() {
    let mut session = Session::new();
    join_four(&mut session);
    act(&mut session, "c0", Step::MakeBid(Bid::Tricks(6, BidSuit::Suit(Suit::Spades))));
    act(&mut session, "c1", Step::MakeBid(Bid::Tricks(6, BidSuit::Suit(Suit::Clubs))));
    act(&mut session, "c2", Step::MakeBid(Bid::Tricks(6, BidSuit::Suit(Suit::Diamonds))));
    act(&mut session, "c3", Step::MakeBid(Bid::Tricks(6, BidSuit::Suit(Suit::Hearts))));
    // All four have bid: OpenMis is open to the current bidder and wins at
    // once.
    let out = act(&mut session, "c0", Step::MakeBid(Bid::OpenMis));
    assert_eq!(out.len(), 12);
    match session.stage.as_ref().unwrap() {
        Stage::BidWon(w) => assert_eq!(w.winning_bidder_index, 0),
        _ => panic!("expected the auction to resolve"),
    }
    let w = session.players[0]
        .1
        .game_history
        .as_ref()
        .unwrap()
        .winning_bid_history
        .as_ref()
        .unwrap();
    assert_eq!(w.winning_bid, Bid::OpenMis);
}

#[test]
fn passed_player_cannot_re_enter() {
    let mut session = Session::new();
    join_four(&mut session);
    act(&mut session, "c0", Step::MakeBid(Bid::Tricks(6, BidSuit::Suit(Suit::Spades))));
    act(&mut session, "c1", Step::MakeBid(Bid::Pass));
    // The turn has moved on to c2; c1 has passed and is out.
    match session.stage.as_ref().unwrap() {
        Stage::Bidding(b) => assert_eq!(b.current_bidder_index, 2),
        _ => panic!("expected the auction to be live"),
    }
    act(&mut session, "c2", Step::MakeBid(Bid::Tricks(6, BidSuit::Suit(Suit::Clubs))));
    act(&mut session, "c3", Step::MakeBid(Bid::Tricks(6, BidSuit::Suit(Suit::Diamonds))));
    // Rotation skips c1 and returns to c0.
    match session.stage.as_ref().unwrap() {
        Stage::Bidding(b) => assert_eq!(b.current_bidder_index, 0),
        _ => panic!("expected the auction to be live"),
    }
}

#[test]
fn join_rejections() {
    let mut session = Session::new();
    act(&mut session, "c0", Step::Join(0));
    // Joining twice is an exclusion.
    let twice = act(&mut session, "c0", Step::Join(0));
    assert_eq!(twice.len(), 1);
    assert!(matches!(twice[0].1.state, CurrentState::Excluded));
    assert_eq!(
        twice[0].1.history.excluded_reason,
        Some("Already joined.".to_string())
    );

    // A stranger's non-join action in the lobby is an exclusion too.
    let stray = act(&mut session, "cX", Step::Poll);
    assert_eq!(stray.len(), 1);
    assert!(matches!(stray[0].1.state, CurrentState::Excluded));

    // Once the match has started, a fifth join is excluded.
    act(&mut session, "c1", Step::Join(0));
    act(&mut session, "c2", Step::Join(0));
    act(&mut session, "c3", Step::Join(0));
    let fifth = act(&mut session, "c4", Step::Join(1));
    assert_eq!(fifth.len(), 1);
    assert!(matches!(fifth[0].1.state, CurrentState::Excluded));
    assert_eq!(
        fifth[0].1.history.excluded_reason,
        Some("Match has started.".to_string())
    );
}

#[test]
fn quit_without_joining_is_an_error() {
    let mut session = Session::new();
    let out = act(&mut session, "cX", Step::Quit);
    assert_eq!(out.len(), 1);
    assert!(matches!(out[0].1.state, CurrentState::Error));
    assert_eq!(
        out[0].1.history.error,
        Some("Tried to leave without joining.".to_string())
    );
}

#[test]
fn lobby_counts_follow_the_joins() {
    let mut session = Session::new();
    act(&mut session, "c0", Step::Join(0));
    let second = act(&mut session, "c1", Step::Join(0));
    assert_eq!(second.len(), 2);
    for m in &second {
        let lh = m.1.history.lobby_history.as_ref().unwrap();
        assert_eq!(lh.player_count, 2);
    }
    let lh0 = session.players[0].1.lobby_history.as_ref().unwrap();
    assert_eq!(lh0.your_player_index, 0);
    assert_eq!(lh0.your_team_index, 0);
    let lh1 = session.players[1].1.lobby_history.as_ref().unwrap();
    assert_eq!(lh1.your_player_index, 1);
    assert_eq!(lh1.your_team_index, 1);
}
