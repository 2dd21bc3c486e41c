//! The stage in which the auction winner takes the kitty and chooses three
//! cards to discard.

use crate::api::{
    outbox_extended, push_msg, sends_to, unwrap_game_history, ClientId, CurrentState, GameHistory,
    GameHistoryView, History, HistoryView, State, Step, WinningBidHistory, WinningBidHistoryView,
};
use crate::stage::{
    index_matches, member_lobby_record, nonplayer_rejected, process_bad_step, reject_nonplayer,
    rejected_with_error, roster_wf, Stage,
};
use crate::types::{valid_bid, Bid, Card};
use vstd::prelude::*;

verus! {

/// The stage after the auction resolves, while the winner decides on the
/// kitty.
#[derive(Debug)]
pub struct BidWon {
    /// The player who won the auction.
    pub winning_bidder_index: usize,
    /// The three cards set aside for the winner.
    pub kitty: Vec<Card>,
}

/// What one roster member's history shows after the bid was won: the bidding
/// record retired, a winning-bid record naming the winner and the bid, and
/// the kitty visible to the winner alone.
pub open spec fn member_bid_won_record(
    stage: BidWon,
    players: Seq<(ClientId, History)>,
    j: int,
) -> bool {
    players[j].1.game_history matches Some(g) && {
        &&& g.hand@.len() == 10
        &&& g.bidding_history is None
        &&& g.plays_history is None
        &&& g.winning_bid_history matches Some(w) && {
            &&& w.winning_bidder_index == stage.winning_bidder_index
            &&& valid_bid(w.winning_bid)
            &&& w.winning_bid != Bid::Pass
            &&& (j == stage.winning_bidder_index ==> (w.kitty matches Some(k) && k@
                == stage.kitty@))
            &&& (j != stage.winning_bidder_index ==> w.kitty is None)
        }
    }
}

/// The history a player holds once the bid is won: the bidding record
/// retired and a winning-bid record in its place, the kitty filled in only
/// for the winner.
pub open spec fn bid_won_history(
    base: HistoryView,
    hand: Seq<Card>,
    winner: usize,
    wbid: Bid,
    kitty: Option<Seq<Card>>,
) -> HistoryView {
    HistoryView {
        game_history: Some(
            GameHistoryView {
                hand: hand,
                bidding_history: None,
                winning_bid_history: Some(
                    WinningBidHistoryView {
                        winning_bidder_index: winner,
                        winning_bid: wbid,
                        kitty: kitty,
                    },
                ),
                plays_history: None,
            },
        ),
        ..base
    }
}

/// Whether a vector of cards holds the given card.
pub fn cards_contain(v: &Vec<Card>, c: Card) -> (r: bool)
    ensures
        r == v@.contains(c),
{
    let mut j: usize = 0;
    while j < v.len()
        invariant
            j <= v@.len(),
            forall|k: int| 0 <= k < j ==> v@[k] != c,
        decreases v@.len() - j,
    {
        if v[j] == c {
            assert(v@[j as int] == c);
            return true;
        }
        j = j + 1;
    }
    false
}

/// Every card on the table, in seat order: the four recorded hands and the
/// given kitty.
pub open spec fn table_cards(players: Seq<(ClientId, History)>, kitty: Seq<Card>) -> Seq<Card> {
    players[0].1.game_history->0.hand@ + players[1].1.game_history->0.hand@
        + players[2].1.game_history->0.hand@ + players[3].1.game_history->0.hand@ + kitty
}

/// What one step in the kitty decision does, case by case: strangers and
/// wrong callers are rejected with the state unchanged, and the winner's
/// valid three-card discard fixes the new hand, spends the kitty, and moves
/// the table into play.
pub open spec fn bid_won_step_spec(
    st: BidWon,
    players0: Seq<(ClientId, History)>,
    players1: Seq<(ClientId, History)>,
    player_index: Option<usize>,
    id: Seq<char>,
    step: Step,
    outbox0: Seq<(ClientId, State)>,
    outbox1: Seq<(ClientId, State)>,
    next: Stage,
) -> bool {
    &&& (player_index is None ==> {
                &&& players1 == players0
                &&& next == Stage::BidWon(st)
                &&& outbox_extended(outbox0, outbox1, 1)
                &&& nonplayer_rejected(outbox1.last(), id, step)
    })
    &&& (player_index matches Some(i) ==> (!(step is DiscardCards) ==> {
                &&& next == Stage::BidWon(st)
                &&& rejected_with_error(
                    players0,
                    players1,
                    outbox0,
                    outbox1,
                    i as int,
                    id,
                    "Invalid step after bid won."@,
                )
    }))
    &&& (player_index matches Some(i) ==> (step matches Step::DiscardCards(cards) ==> {
                let w = st.winning_bidder_index as int;
                let hand0 = players0[w].1.game_history->0.hand@;
                let held = hand0 + st.kitty@;
                let good_count = cards@.len() == 3 && cards@.no_duplicates();
                let all_held = forall|k: int| 0 <= k < cards@.len() ==> held.contains(cards@[k]);
                &&& (i != st.winning_bidder_index ==> next == Stage::BidWon(st)
                    && rejected_with_error(
                    players0,
                    players1,
                    outbox0,
                    outbox1,
                    i as int,
                    id,
                    "You don't have the kitty."@,
                ))
                &&& (i == st.winning_bidder_index && !good_count ==> next == Stage::BidWon(st)
                    && rejected_with_error(
                    players0,
                    players1,
                    outbox0,
                    outbox1,
                    i as int,
                    id,
                    "You tried to discard the wrong number of cards."@,
                ))
                &&& (i == st.winning_bidder_index && good_count && !all_held ==> next
                    == Stage::BidWon(st) && rejected_with_error(
                    players0,
                    players1,
                    outbox0,
                    outbox1,
                    i as int,
                    id,
                    "You tried to discard cards you don't hold."@,
                ))
                &&& (i == st.winning_bidder_index && good_count && all_held ==> {
                    let g = players1[w].1.game_history->0;
                    &&& next == Stage::Playing(crate::playing::Playing {  })
                    &&& g.hand@.len() == 10
                    &&& g.hand@.no_duplicates()
                    &&& forall|c: Card|
                        g.hand@.contains(c) <==> (held.contains(c) && !cards@.contains(c))
                    &&& players1[w].1@ == bid_won_history(
                        players0[w].1@,
                        g.hand@,
                        st.winning_bidder_index,
                        players0[w].1.game_history->0.winning_bid_history->0.winning_bid,
                        None,
                    )
                    &&& forall|j: int|
                        0 <= j < 4 && j != w ==> players1[j].1 == players0[j].1
                    &&& outbox_extended(outbox0, outbox1, 4)
                    &&& forall|j: int|
                        0 <= j < 4 ==> sends_to(
                            #[trigger] outbox1[outbox0.len() + j],
                            players0[j].0@,
                            CurrentState::WaitingForTheirPlay,
                            players1[j].1@,
                        )
                })
    }))
}

impl BidWon {
    /// The winner's hand as the roster records it.
    pub open spec fn winner_hand(self, players: Seq<(ClientId, History)>) -> Seq<Card> {
        players[self.winning_bidder_index as int].1.game_history->0.hand@
    }

    /// Every card on the table, in seat order: the four recorded hands and
    /// the kitty.
    pub open spec fn all_table_cards(self, players: Seq<(ClientId, History)>) -> Seq<Card> {
        table_cards(players, self.kitty@)
    }

    /// The stage's own invariant: four players, a winner below four, a
    /// three-card kitty, sound per-player records, and no card appearing
    /// twice anywhere on the table — in particular no other hand shares a
    /// card with the winner's hand or the kitty, and the winner's hand and
    /// the kitty are disjoint.
    pub open spec fn wf(self, players: Seq<(ClientId, History)>) -> bool {
        &&& players.len() == 4
        &&& self.winning_bidder_index < 4
        &&& self.kitty@.len() == 3
        &&& forall|j: int| 0 <= j < 4 ==> #[trigger] member_bid_won_record(self, players, j)
        &&& self.all_table_cards(players).no_duplicates()
        &&& (self.winner_hand(players) + self.kitty@).no_duplicates()
    }

    /// Resolves the auction: retires every player's bidding record, announces
    /// the winner and the winning bid to everyone, hands the kitty to the
    /// winner alone, and asks the table to wait on the winner's decision.
    pub fn new(
        players: &mut Vec<(ClientId, History)>,
        outbox: &mut Vec<(ClientId, State)>,
        winning_bidder_index: usize,
        winning_bid: Bid,
        kitty: Vec<Card>,
    ) -> (w: BidWon)
        requires
            roster_wf(old(players)@),
            old(players)@.len() == 4,
            winning_bidder_index < 4,
            valid_bid(winning_bid),
            winning_bid != Bid::Pass,
            kitty@.len() == 3,
            forall|j: int|
                0 <= j < 4 ==> (#[trigger] old(players)@[j].1.game_history matches Some(g)
                    && g.hand@.len() == 10),
            (old(players)@[winning_bidder_index as int].1.game_history->0.hand@
                + kitty@).no_duplicates(),
            table_cards(old(players)@, kitty@).no_duplicates(),
        ensures
            w.wf(final(players)@),
            roster_wf(final(players)@),
            final(players)@.len() == 4,
            forall|j: int| 0 <= j < 4 ==> final(players)@[j].0 == old(players)@[j].0,
            w.winning_bidder_index == winning_bidder_index,
            w.kitty@ == kitty@,
            forall|j: int|
                0 <= j < 4 ==> final(players)@[j].1@ == bid_won_history(
                    old(players)@[j].1@,
                    old(players)@[j].1.game_history->0.hand@,
                    winning_bidder_index,
                    winning_bid,
                    if j == winning_bidder_index {
                        Some(kitty@)
                    } else {
                        None
                    },
                ),
            outbox_extended(old(outbox)@, final(outbox)@, 8),
            forall|j: int|
                0 <= j < 4 ==> sends_to(
                    #[trigger] final(outbox)@[old(outbox)@.len() + j],
                    old(players)@[j].0@,
                    CurrentState::BidWon,
                    bid_won_history(
                        old(players)@[j].1@,
                        old(players)@[j].1.game_history->0.hand@,
                        winning_bidder_index,
                        winning_bid,
                        None,
                    ),
                ),
            forall|j: int|
                0 <= j < 4 ==> sends_to(
                    #[trigger] final(outbox)@[old(outbox)@.len() + 4 + j],
                    old(players)@[j].0@,
                    if j == winning_bidder_index {
                        CurrentState::WaitingForYourKitty
                    } else {
                        CurrentState::WaitingForTheirKitty
                    },
                    final(players)@[j].1@,
                ),
    {
        let ghost base = outbox@.len();
        let ghost outbox0 = outbox@;
        let ghost players0 = players@;

        // Retire the bidding views, announce the winner.
        let mut j: usize = 0;
        while j < 4
            invariant
                players@.len() == 4,
                players0.len() == 4,
                j <= 4,
                winning_bidder_index < 4,
                forall|k: int| 0 <= k < 4 ==> #[trigger] players@[k].0 == players0[k].0,
                forall|k: int| j <= k < 4 ==> #[trigger] players@[k].1 == players0[k].1,
                forall|k: int|
                    0 <= k < 4 ==> (#[trigger] players0[k].1.game_history matches Some(g)
                        && g.hand@.len() == 10),
                forall|k: int|
                    0 <= k < j ==> (#[trigger] players@[k].1)@ == bid_won_history(
                        players0[k].1@,
                        players0[k].1.game_history->0.hand@,
                        winning_bidder_index,
                        winning_bid,
                        None,
                    ),
                forall|k: int|
                    0 <= k < j ==> ((#[trigger] players@[k].1).game_history matches Some(g) && {
                        &&& g.hand@ == players0[k].1.game_history->0.hand@
                        &&& g.bidding_history is None
                        &&& g.plays_history is None
                        &&& g.winning_bid_history matches Some(wh) && wh
                            == (WinningBidHistory {
                            winning_bidder_index,
                            winning_bid,
                            kitty: None,
                        })
                    }),
                forall|k: int|
                    0 <= k < j ==> (#[trigger] players@[k].1).lobby_history
                        == players0[k].1.lobby_history && players@[k].1.match_history
                        == players0[k].1.match_history && players@[k].1.error
                        == players0[k].1.error && players@[k].1.excluded_reason
                        == players0[k].1.excluded_reason,
                outbox@.len() == base + j,
                forall|i: int| 0 <= i < base ==> #[trigger] outbox@[i] == outbox0[i],
                forall|k: int|
                    0 <= k < j ==> sends_to(
                        #[trigger] outbox@[base + k],
                        players@[k].0@,
                        CurrentState::BidWon,
                        bid_won_history(
                            players0[k].1@,
                            players0[k].1.game_history->0.hand@,
                            winning_bidder_index,
                            winning_bid,
                            None,
                        ),
                    ),
            decreases 4 - j,
        {
            let ghost pit = players@;
            {
                let entry = &mut players[j];
                match &mut entry.1.game_history {
                    Some(g) => {
                        g.bidding_history = None;
                        g.plays_history = None;
                        g.winning_bid_history = Some(
                            WinningBidHistory { winning_bidder_index, winning_bid, kitty: None },
                        );
                    },
                    None => {},
                }
            }
            proof {
                assert(players@[j as int].1@ =~~= bid_won_history(
                    players0[j as int].1@,
                    players0[j as int].1.game_history->0.hand@,
                    winning_bidder_index,
                    winning_bid,
                    None,
                ));
            }
            let h = players[j].1.clone();
            push_msg(outbox, &players[j].0, CurrentState::BidWon, h);
            proof {
                assert forall|k: int| 0 <= k < j implies (#[trigger] players@[k].1)
                    == pit[k].1 by {}
            }
            j = j + 1;
        }

        // The kitty goes to the winner.
        let ghost pre_kitty = players@;
        let kitty_copy = crate::api::clone_plain_vec(&kitty);
        {
            let entry = &mut players[winning_bidder_index];
            match &mut entry.1.game_history {
                Some(g) => {
                    match &mut g.winning_bid_history {
                        Some(wh) => {
                            wh.kitty = Some(kitty_copy);
                        },
                        None => {},
                    }
                },
                None => {},
            }
        }
        proof {
            assert(players@[winning_bidder_index as int].1@ =~~= bid_won_history(
                players0[winning_bidder_index as int].1@,
                players0[winning_bidder_index as int].1.game_history->0.hand@,
                winning_bidder_index,
                winning_bid,
                Some(kitty@),
            ));
            assert forall|k: int| 0 <= k < 4 && k != winning_bidder_index implies (
            #[trigger] players@[k].1) == pre_kitty[k].1 by {}
        }

        // Everyone waits on the winner's kitty decision.
        let ghost players1 = players@;
        let ghost outbox2 = outbox@;
        let mut j: usize = 0;
        while j < 4
            invariant
                players@ == players1,
                players@.len() == 4,
                j <= 4,
                winning_bidder_index < 4,
                outbox2.len() == base + 4,
                outbox@.len() == base + 4 + j,
                forall|i: int| 0 <= i < base + 4 ==> #[trigger] outbox@[i] == outbox2[i],
                forall|k: int|
                    0 <= k < j ==> sends_to(
                        #[trigger] outbox@[base + 4 + k],
                        players@[k].0@,
                        if k == winning_bidder_index {
                            CurrentState::WaitingForYourKitty
                        } else {
                            CurrentState::WaitingForTheirKitty
                        },
                        players@[k].1@,
                    ),
            decreases 4 - j,
        {
            let tag = if j == winning_bidder_index {
                CurrentState::WaitingForYourKitty
            } else {
                CurrentState::WaitingForTheirKitty
            };
            let h = players[j].1.clone();
            push_msg(outbox, &players[j].0, tag, h);
            j = j + 1;
        }

        proof {
            assert forall|k: int| 0 <= k < 4 implies #[trigger] member_lobby_record(
                players@,
                k,
            ) by {
                assert(member_lobby_record(players0, k));
                assert(players@[k].1@ == bid_won_history(
                    players0[k].1@,
                    players0[k].1.game_history->0.hand@,
                    winning_bidder_index,
                    winning_bid,
                    if k == winning_bidder_index {
                        Some(kitty@)
                    } else {
                        None
                    },
                ));
            }
            assert(table_cards(players@, kitty@) =~= table_cards(players0, kitty@));
        }
        BidWon { winning_bidder_index, kitty }
    }

    /// Settles the kitty. Only the winner may discard; a discard must name
    /// exactly three distinct cards, all held in the winner's hand or the
    /// kitty. A valid discard leaves the winner with exactly ten cards (the
    /// held thirteen minus the three discarded), empties the kitty, and moves
    /// the table into play. Everything else is rejected with the state
    /// unchanged.
    pub fn process_step(
        self,
        players: &mut Vec<(ClientId, History)>,
        player_index: Option<usize>,
        client_id: &ClientId,
        step: &Step,
        outbox: &mut Vec<(ClientId, State)>,
    ) -> (next: Stage)
        requires
            roster_wf(old(players)@),
            self.wf(old(players)@),
            index_matches(old(players)@, player_index, client_id@),
        ensures
            roster_wf(final(players)@),
            next.wf(final(players)@),
            final(players)@.len() == 4,
            forall|j: int| 0 <= j < 4 ==> final(players)@[j].0 == old(players)@[j].0,
            bid_won_step_spec(
                self,
                old(players)@,
                final(players)@,
                player_index,
                client_id@,
                *step,
                old(outbox)@,
                final(outbox)@,
                next,
            ),
    {
        let index = reject_nonplayer(player_index, client_id, step, outbox);
        let i = match index {
            Some(i) => i,
            None => {
                return Stage::BidWon(self);
            },
        };
        match step {
            Step::DiscardCards(cards) => {
                // Only the auction winner holds the kitty.
                if i != self.winning_bidder_index {
                    process_bad_step(players, i, client_id, "You don't have the kitty.", outbox);
                    return Stage::BidWon(self);
                }
                // Exactly three distinct cards must be discarded.
                if cards.len() != 3 {
                    process_bad_step(
                        players,
                        i,
                        client_id,
                        "You tried to discard the wrong number of cards.",
                        outbox,
                    );
                    return Stage::BidWon(self);
                }
                if cards[0] == cards[1] || cards[0] == cards[2] || cards[1] == cards[2] {
                    process_bad_step(
                        players,
                        i,
                        client_id,
                        "You tried to discard the wrong number of cards.",
                        outbox,
                    );
                    return Stage::BidWon(self);
                }
                proof {
                    assert(cards@.no_duplicates());
                }
                // The winner may only discard cards it holds.
                proof {
                    assert(member_bid_won_record(self, old(players)@, i as int));
                }
                let mut held = crate::api::clone_plain_vec(&unwrap_game_history(&players[i].1).hand);
                let mut t: usize = 0;
                while t < self.kitty.len()
                    invariant
                        t <= self.kitty@.len(),
                        held@ == old(players)@[self.winning_bidder_index as int].1.game_history->0
                            .hand@ + self.kitty@.subrange(0, t as int),
                        players@ == old(players)@,
                        outbox@ == old(outbox)@,
                    decreases self.kitty@.len() - t,
                {
                    held.push(self.kitty[t]);
                    proof {
                        assert(held@ =~= old(players)@[self.winning_bidder_index as int].1
                            .game_history->0.hand@ + self.kitty@.subrange(0, (t + 1) as int));
                    }
                    t = t + 1;
                }
                proof {
                    assert(self.kitty@.subrange(0, self.kitty@.len() as int) =~= self.kitty@);
                }
                let mut k: usize = 0;
                while k < 3
                    invariant
                        k <= 3,
                        cards@.len() == 3,
                        forall|p: int| 0 <= p < k ==> held@.contains(cards@[p]),
                        players@ == old(players)@,
                        outbox@ == old(outbox)@,
                        roster_wf(old(players)@),
                        self.wf(old(players)@),
                        i == self.winning_bidder_index,
                        i < players@.len(),
                        player_index == Some(i),
                        old(players)@[i as int].0@ == client_id@,
                        *step matches Step::DiscardCards(c) && c == *cards,
                        cards@.no_duplicates(),
                        held@ == old(players)@[self.winning_bidder_index as int].1.game_history->0
                            .hand@ + self.kitty@,
                    decreases 3 - k,
                {
                    if !cards_contain(&held, cards[k]) {
                        process_bad_step(
                            players,
                            i,
                            client_id,
                            "You tried to discard cards you don't hold.",
                            outbox,
                        );
                        return Stage::BidWon(self);
                    }
                    k = k + 1;
                }

                // Keep what was held and not discarded.
                let mut new_hand: Vec<Card> = Vec::new();
                let mut k: usize = 0;
                while k < held.len()
                    invariant
                        k <= held@.len(),
                        held@.no_duplicates(),
                        cards@.len() == 3,
                        cards@.no_duplicates(),
                        forall|p: int| 0 <= p < 3 ==> held@.contains(cards@[p]),
                        held@ == old(players)@[self.winning_bidder_index as int].1.game_history->0
                            .hand@ + self.kitty@,
                        new_hand@.no_duplicates(),
                        forall|x: Card|
                            new_hand@.contains(x) <==> (held@.subrange(0, k as int).contains(x)
                                && !cards@.contains(x)),
                        forall|p: int|
                            0 <= p < new_hand@.len() ==> held@.subrange(0, k as int).contains(
                                #[trigger] new_hand@[p],
                            ),
                        players@ == old(players)@,
                        outbox@ == old(outbox)@,
                        *step matches Step::DiscardCards(c) && c == *cards,
                        player_index == Some(i),
                        i == self.winning_bidder_index,
                        roster_wf(old(players)@),
                        self.wf(old(players)@),
                        old(players)@[i as int].0@ == client_id@,
                    decreases held@.len() - k,
                {
                    let ghost pre = new_hand@;
                    if !cards_contain(cards, held[k]) {
                        new_hand.push(held[k]);
                        proof {
                            assert(new_hand@ == pre.push(held@[k as int]));
                            assert(new_hand@[pre.len() as int] == held@[k as int]);
                            assert forall|x: Card| pre.contains(x) implies new_hand@.contains(
                                x,
                            ) by {
                                let p = choose|p: int| 0 <= p < pre.len() && pre[p] == x;
                                assert(new_hand@[p] == x);
                            }
                            assert(!pre.contains(held@[k as int])) by {
                                if pre.contains(held@[k as int]) {
                                    let p = choose|p: int|
                                        0 <= p < pre.len() && pre[p] == held@[k as int];
                                    assert(held@.subrange(0, k as int).contains(pre[p]));
                                    let q = choose|q: int|
                                        0 <= q < k && held@.subrange(0, k as int)[q] == pre[p];
                                    assert(held@[q] == held@[k as int]);
                                }
                            }
                        }
                    }
                    proof {
                        let sub0 = held@.subrange(0, k as int);
                        let sub1 = held@.subrange(0, (k + 1) as int);
                        assert(sub1 =~= sub0.push(held@[k as int]));
                        assert forall|x: Card| sub0.contains(x) implies sub1.contains(x) by {
                            let q = choose|q: int| 0 <= q < sub0.len() && sub0[q] == x;
                            assert(sub1[q] == x);
                        }
                        assert(sub1[k as int] == held@[k as int]);
                        assert(sub1.contains(held@[k as int]));
                        assert forall|x: Card| sub1.contains(x) implies (sub0.contains(x) || x
                            == held@[k as int]) by {
                            let q = choose|q: int| 0 <= q < sub1.len() && sub1[q] == x;
                            if q < k {
                                assert(sub0[q] == x);
                            }
                        }
                    }
                    k = k + 1;
                }
                proof {
                    assert(held@.subrange(0, held@.len() as int) =~= held@);
                    assert(member_bid_won_record(
                        self,
                        old(players)@,
                        self.winning_bidder_index as int,
                    ));
                    assert(held@.len() == 13);
                    held@.unique_seq_to_set();
                    cards@.unique_seq_to_set();
                    new_hand@.unique_seq_to_set();
                    assert(new_hand@.to_set() =~= held@.to_set().difference(cards@.to_set()));
                    assert forall|x: Card| cards@.to_set().contains(x) implies held@.to_set()
                        .contains(x) by {
                        let p = choose|p: int| 0 <= p < cards@.len() && cards@[p] == x;
                        assert(held@.contains(cards@[p]));
                    }
                    assert(cards@.to_set().subset_of(held@.to_set()));
                    lemma_len_difference_exact(held@.to_set(), cards@.to_set());
                    assert(new_hand@.len() == 10);
                }

                // Commit: the new hand replaces the old, the kitty is spent.
                let ghost pre_commit = players@;
                {
                    let entry = &mut players[i];
                    match &mut entry.1.game_history {
                        Some(g) => {
                            g.hand = new_hand;
                            match &mut g.winning_bid_history {
                                Some(wh) => {
                                    wh.kitty = None;
                                },
                                None => {},
                            }
                        },
                        None => {},
                    }
                }
                proof {
                    assert(players@[i as int].1@ =~~= bid_won_history(
                        pre_commit[i as int].1@,
                        players@[i as int].1.game_history->0.hand@,
                        self.winning_bidder_index,
                        pre_commit[i as int].1.game_history->0.winning_bid_history->0.winning_bid,
                        None,
                    ));
                    assert forall|j: int| 0 <= j < 4 && j != i implies (#[trigger] players@[j].1)
                        == pre_commit[j].1 by {}
                    assert forall|j: int| 0 <= j < 4 implies #[trigger] member_lobby_record(
                        players@,
                        j,
                    ) by {
                        assert(member_lobby_record(pre_commit, j));
                    }
                }

                // Tell the table that play is next.
                let ghost players1 = players@;
                let ghost base = outbox@.len();
                let ghost outbox1 = outbox@;
                let mut j: usize = 0;
                while j < 4
                    invariant
                        players@ == players1,
                        players@.len() == 4,
                        j <= 4,
                        outbox@.len() == base + j,
                        forall|q: int| 0 <= q < base ==> #[trigger] outbox@[q] == outbox1[q],
                        forall|q: int|
                            0 <= q < j ==> sends_to(
                                #[trigger] outbox@[base + q],
                                players@[q].0@,
                                CurrentState::WaitingForTheirPlay,
                                players@[q].1@,
                            ),
                    decreases 4 - j,
                {
                    let h = players[j].1.clone();
                    push_msg(outbox, &players[j].0, CurrentState::WaitingForTheirPlay, h);
                    j = j + 1;
                }
                Stage::Playing(crate::playing::Playing {  })
            },
            _ => {
                process_bad_step(players, i, client_id, "Invalid step after bid won.", outbox);
                Stage::BidWon(self)
            },
        }
    }
}

/// With `b` a subset of the finite set `a`, removing `b` removes exactly
/// `b.len()` elements.
pub proof fn lemma_len_difference_exact<A>(a: Set<A>, b: Set<A>)
    requires
        a.finite(),
        b.subset_of(a),
    ensures
        a.difference(b).len() == a.len() - b.len(),
    decreases b.len(),
{
    vstd::set_lib::lemma_len_subset(b, a);
    if b.len() == 0 {
        assert(b =~= Set::empty());
        assert(a.difference(b) =~= a);
    } else {
        let x = b.choose();
        assert(b.contains(x));
        lemma_len_difference_exact(a.remove(x), b.remove(x));
        assert(a.remove(x).difference(b.remove(x)) =~= a.difference(b));
    }
}

} // verus!
