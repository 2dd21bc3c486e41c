//! The auction: legal-bid computation and the bidding stage's state.

use crate::api::{
    clone_plain_vec, outbox_extended, push_msg, sends_to, BiddingHistory, BiddingHistoryView,
    ClientId, CurrentState, GameHistory, GameHistoryView, History, HistoryView, LobbyHistory,
    MatchHistory, MatchHistoryView, State, Step,
};
use crate::dealer::{deal, full_deck};
use crate::stage::{
    index_matches, member_lobby_record, nonplayer_rejected, process_bad_step, reject_nonplayer,
    rejected_with_error, roster_wf, Stage,
};
use crate::types::{bid_rank, valid_bid, Bid, Card};
use vstd::prelude::*;

verus! {

/// The stage in which the four players bid for one game.
#[derive(Debug)]
pub struct Bidding {
    /// The player who opened this auction.
    pub first_bidder_index: usize,
    /// The player whose turn it is to bid.
    pub current_bidder_index: usize,
    /// The hands as dealt, ordered by player index.
    pub hands: Vec<Vec<Card>>,
    /// The three cards set aside for the auction winner.
    pub kitty: Vec<Card>,
    /// The latest bid of each player, if any.
    pub prev_bids: Vec<Option<Bid>>,
    /// The highest non-Pass bid so far, if any.
    pub highest_bid: Option<Bid>,
    /// The player who made `highest_bid`; meaningful only while that is set.
    pub highest_bidder_index: usize,
}

/// A recorded bid, if there is one, has a shape the auction admits.
pub open spec fn recorded_bid_ok(o: Option<Bid>) -> bool {
    o matches Some(b) ==> valid_bid(b)
}

/// A recorded non-Pass bid does not outrank the standing highest bid.
pub open spec fn below_highest(o: Option<Bid>, hb: Bid) -> bool {
    o matches Some(b) ==> b == Bid::Pass || bid_rank(b) <= bid_rank(hb)
}

/// A recorded bid, if there is one, is a Pass.
pub open spec fn pass_or_none(o: Option<Bid>) -> bool {
    o matches Some(b) ==> b == Bid::Pass
}

/// What one roster member's history shows during the auction: the dealt hand,
/// a live bidding record mirroring the stage's own, options exactly for the
/// current bidder, and no later sub-views yet.
pub open spec fn member_bidding_record(
    stage: Bidding,
    players: Seq<(ClientId, History)>,
    j: int,
) -> bool {
    players[j].1.game_history matches Some(g) && {
        &&& g.hand@ == stage.hands@[j]@
        &&& g.winning_bid_history is None
        &&& g.plays_history is None
        &&& g.bidding_history matches Some(bh) && {
            &&& bh.bids@ == stage.prev_bids@
            &&& bh.current_bidder_index == stage.current_bidder_index
            &&& (bh.bid_options is Some <==> j == stage.current_bidder_index)
        }
    }
}

impl Bidding {
    /// All the cards in play, in dealing order.
    pub open spec fn all_cards(self) -> Seq<Card> {
        self.hands@[0]@ + self.hands@[1]@ + self.hands@[2]@ + self.hands@[3]@ + self.kitty@
    }

    /// The stage's own invariant, tied to the roster it governs: exactly four
    /// players holding ten cards each plus a three-card kitty that together
    /// partition the deck; a sound record of the bids made so far; and an
    /// auction that has not yet resolved.
    pub open spec fn wf(self, players: Seq<(ClientId, History)>) -> bool {
        &&& players.len() == 4
        &&& self.first_bidder_index < 4
        &&& self.current_bidder_index < 4
        &&& self.prev_bids@.len() == 4
        &&& self.hands@.len() == 4
        &&& self.kitty@.len() == 3
        &&& forall|j: int| 0 <= j < 4 ==> #[trigger] recorded_bid_ok(self.prev_bids@[j])
        &&& self.prev_bids@[self.current_bidder_index as int] != Some(Bid::Pass)
        &&& match self.highest_bid {
            Some(hb) => {
                &&& valid_bid(hb)
                &&& hb != Bid::Pass
                &&& hb != Bid::OpenMis
                &&& self.highest_bidder_index < 4
                &&& forall|j: int| 0 <= j < 4 ==> #[trigger] below_highest(self.prev_bids@[j], hb)
            },
            None => forall|j: int| 0 <= j < 4 ==> #[trigger] pass_or_none(self.prev_bids@[j]),
        }
        &&& count_passes(self.prev_bids@) <= 3
        &&& (self.highest_bid is Some ==> count_passes(self.prev_bids@) <= 2)
        &&& forall|j: int| 0 <= j < 4 ==> #[trigger] self.hands@[j]@.len() == 10
        &&& self.all_cards().to_multiset() == full_deck().to_multiset()
        &&& self.all_cards().no_duplicates()
        &&& forall|j: int| 0 <= j < 4 ==> #[trigger] member_bidding_record(self, players, j)
    }
}

/// The history a player holds right after the deal: a fresh match record, the
/// dealt hand, an empty bidding record pointing at the first bidder, and the
/// given bid options (populated for the first bidder alone).
pub open spec fn dealt_history(
    lobby: Option<LobbyHistory>,
    hand: Seq<Card>,
    first: usize,
    options: Option<Seq<Bid>>,
) -> HistoryView {
    HistoryView {
        lobby_history: lobby,
        match_history: Some(
            MatchHistoryView {
                past_games: Seq::empty(),
                winning_team_index: None,
                match_aborted_reason: None,
            },
        ),
        game_history: Some(
            GameHistoryView {
                hand: hand,
                bidding_history: Some(
                    BiddingHistoryView {
                        bid_options: options,
                        bids: seq![None, None, None, None],
                        current_bidder_index: first,
                    },
                ),
                winning_bid_history: None,
                plays_history: None,
            },
        ),
        excluded_reason: None,
        error: None,
    }
}

/// Builds the empty per-player bid record.
fn four_none_bids() -> (v: Vec<Option<Bid>>)
    ensures
        v@ =~= seq![None, None, None, None],
{
    let mut v: Vec<Option<Bid>> = Vec::new();
    v.push(None);
    v.push(None);
    v.push(None);
    v.push(None);
    v
}

/// No passes are counted in a record without a Pass.
pub proof fn lemma_count_passes_no_pass(s: Seq<Option<Bid>>)
    requires
        forall|j: int| 0 <= j < s.len() ==> s[j] != Some(Bid::Pass),
    ensures
        count_passes(s) == 0,
    decreases s.len(),
{
    if s.len() > 0 {
        lemma_count_passes_no_pass(s.drop_last());
    }
}

impl Bidding {
    /// Opens the auction for a new game: deals a shuffled deck into four
    /// hands and the kitty, resets every player's game record, hands the
    /// first bidder its options, and notifies everyone of the new hand and
    /// whose turn it is.
    pub fn new(
        players: &mut Vec<(ClientId, History)>,
        outbox: &mut Vec<(ClientId, State)>,
        first_bidder_index: usize,
    ) -> (b: Bidding)
        requires
            roster_wf(old(players)@),
            old(players)@.len() == 4,
            first_bidder_index < 4,
        ensures
            b.wf(final(players)@),
            roster_wf(final(players)@),
            final(players)@.len() == 4,
            forall|j: int| 0 <= j < 4 ==> final(players)@[j].0 == old(players)@[j].0,
            b.first_bidder_index == first_bidder_index,
            b.current_bidder_index == first_bidder_index,
            b.highest_bid is None,
            forall|j: int| 0 <= j < 4 ==> b.prev_bids@[j] is None,
            forall|j: int|
                0 <= j < 4 && j != first_bidder_index ==> final(players)@[j].1@ == dealt_history(
                    old(players)@[j].1.lobby_history,
                    b.hands@[j]@,
                    first_bidder_index,
                    None,
                ),
            ({
                let h = final(players)@[first_bidder_index as int].1;
                h.game_history->0.bidding_history->0.bid_options matches Some(o)
                    && available_bids_spec(
                    b.prev_bids@,
                    None,
                    first_bidder_index as int,
                    o@,
                ) && h@ == dealt_history(
                    old(players)@[first_bidder_index as int].1.lobby_history,
                    b.hands@[first_bidder_index as int]@,
                    first_bidder_index,
                    Some(o@),
                )
            }),
            outbox_extended(old(outbox)@, final(outbox)@, 8),
            forall|j: int|
                0 <= j < 4 ==> sends_to(
                    final(outbox)@[old(outbox)@.len() + 2 * j],
                    final(players)@[j].0@,
                    CurrentState::HandDealt,
                    dealt_history(
                        old(players)@[j].1.lobby_history,
                        b.hands@[j]@,
                        first_bidder_index,
                        None,
                    ),
                ),
            forall|j: int|
                0 <= j < 4 ==> sends_to(
                    final(outbox)@[old(outbox)@.len() + 2 * j + 1],
                    final(players)@[j].0@,
                    if j == first_bidder_index {
                        CurrentState::WaitingForYourBid
                    } else {
                        CurrentState::WaitingForTheirBid
                    },
                    final(players)@[j].1@,
                ),
    {
        let (hands, kitty) = deal();
        let b = Bidding {
            first_bidder_index,
            current_bidder_index: first_bidder_index,
            hands,
            kitty,
            prev_bids: four_none_bids(),
            highest_bid: None,
            highest_bidder_index: 0,
        };
        let ghost base = outbox@.len();
        let ghost outbox0 = outbox@;
        let ghost players0 = players@;

        let mut j: usize = 0;
        while j < 4
            invariant
                players@.len() == 4,
                players0.len() == 4,
                j <= 4,
                first_bidder_index < 4,
                b.first_bidder_index == first_bidder_index,
                b.current_bidder_index == first_bidder_index,
                b.highest_bid is None,
                b.prev_bids@ =~= seq![None, None, None, None],
                b.hands@.len() == 4,
                forall|k: int| 0 <= k < 4 ==> #[trigger] b.hands@[k]@.len() == 10,
                b.kitty@.len() == 3,
                b.all_cards().to_multiset() == full_deck().to_multiset(),
                b.all_cards().no_duplicates(),
                roster_wf(players0),
                forall|k: int| 0 <= k < 4 ==> #[trigger] players@[k].0 == players0[k].0,
                forall|k: int| j <= k < 4 ==> #[trigger] players@[k].1 == players0[k].1,
                forall|k: int|
                    0 <= k < j ==> (#[trigger] players@[k].1).lobby_history
                        == players0[k].1.lobby_history && players@[k].1.match_history is Some
                        && players@[k].1.error is None && players@[k].1.excluded_reason is None,
                forall|k: int| 0 <= k < j ==> #[trigger] member_bidding_record(b, players@, k),
                forall|k: int|
                    0 <= k < j && k != first_bidder_index ==> #[trigger] players@[k].1@
                        == dealt_history(
                        players0[k].1.lobby_history,
                        b.hands@[k]@,
                        first_bidder_index,
                        None,
                    ),
                j > first_bidder_index ==> ({
                    let h = players@[first_bidder_index as int].1;
                    h.game_history->0.bidding_history->0.bid_options matches Some(o)
                        && available_bids_spec(
                        b.prev_bids@,
                        None,
                        first_bidder_index as int,
                        o@,
                    ) && h@ == dealt_history(
                        players0[first_bidder_index as int].1.lobby_history,
                        b.hands@[first_bidder_index as int]@,
                        first_bidder_index,
                        Some(o@),
                    )
                }),
                outbox@.len() == base + 2 * j,
                forall|i: int| 0 <= i < base ==> #[trigger] outbox@[i] == outbox0[i],
                forall|k: int|
                    0 <= k < j ==> sends_to(
                        #[trigger] outbox@[base + 2 * k],
                        players@[k].0@,
                        CurrentState::HandDealt,
                        dealt_history(
                            players0[k].1.lobby_history,
                            b.hands@[k]@,
                            first_bidder_index,
                            None,
                        ),
                    ),
                forall|k: int|
                    0 <= k < j ==> sends_to(
                        #[trigger] outbox@[base + 2 * k + 1],
                        players@[k].0@,
                        if k == first_bidder_index {
                            CurrentState::WaitingForYourBid
                        } else {
                            CurrentState::WaitingForTheirBid
                        },
                        players@[k].1@,
                    ),
            decreases 4 - j,
        {
            let ghost pit = players@;
            let hand_j = crate::api::clone_plain_vec(&b.hands[j]);
            {
                let entry = &mut players[j];
                entry.1.match_history = Some(
                    MatchHistory {
                        past_games: Vec::new(),
                        winning_team_index: None,
                        match_aborted_reason: None,
                    },
                );
                entry.1.game_history = Some(
                    GameHistory {
                        hand: hand_j,
                        bidding_history: Some(
                            BiddingHistory {
                                bid_options: None,
                                bids: four_none_bids(),
                                current_bidder_index: first_bidder_index,
                            },
                        ),
                        winning_bid_history: None,
                        plays_history: None,
                    },
                );
            }
            proof {
                assert(member_lobby_record(players0, j as int));
                assert(players@[j as int].1@ =~~= dealt_history(
                    players0[j as int].1.lobby_history,
                    b.hands@[j as int]@,
                    first_bidder_index,
                    None,
                ));
            }
            let h1 = players[j].1.clone();
            push_msg(outbox, &players[j].0, CurrentState::HandDealt, h1);
            if j == first_bidder_index {
                let opts = b.available_bids(j);
                let entry = &mut players[j];
                match &mut entry.1.game_history {
                    Some(g) => {
                        match &mut g.bidding_history {
                            Some(bh) => {
                                bh.bid_options = Some(opts);
                            },
                            None => {},
                        }
                    },
                    None => {},
                }
                proof {
                    let o = players@[j as int].1.game_history->0.bidding_history->0.bid_options->0;
                    assert(players@[j as int].1@ =~~= dealt_history(
                        players0[j as int].1.lobby_history,
                        b.hands@[j as int]@,
                        first_bidder_index,
                        Some(o@),
                    ));
                }
            }
            let tag = if j == first_bidder_index {
                CurrentState::WaitingForYourBid
            } else {
                CurrentState::WaitingForTheirBid
            };
            let h2 = players[j].1.clone();
            push_msg(outbox, &players[j].0, tag, h2);
            proof {
                assert(member_bidding_record(b, players@, j as int));
                assert forall|k: int| 0 <= k < j implies #[trigger] member_bidding_record(
                    b,
                    players@,
                    k,
                ) by {
                    assert(players@[k].1 == pit[k].1);
                    assert(member_bidding_record(b, pit, k));
                }
            }
            j = j + 1;
        }
        proof {
            lemma_count_passes_no_pass(b.prev_bids@);
            assert forall|k: int| 0 <= k < 4 implies #[trigger] member_lobby_record(
                players@,
                k,
            ) by {
                assert(member_lobby_record(players0, k));
            }
        }
        b
    }
}

/// How many players have most recently passed.
pub open spec fn count_passes(prev: Seq<Option<Bid>>) -> int
    decreases prev.len(),
{
    if prev.len() == 0 {
        0
    } else {
        count_passes(prev.drop_last()) + if prev.last() == Some(Bid::Pass) {
            1int
        } else {
            0int
        }
    }
}

/// The rank every fresh bid must exceed: that of the highest bid so far, or
/// of Pass when there is none.
pub open spec fn floor_rank(highest: Option<Bid>) -> int {
    match highest {
        Some(h) => bid_rank(h),
        None => 0,
    }
}

/// Whether every player has made at least one bid, which first admits the
/// Mis bids.
pub open spec fn all_have_bid(prev: Seq<Option<Bid>>) -> bool {
    forall|j: int| 0 <= j < prev.len() ==> prev[j] is Some
}

/// The kinds of bid open at a point of the auction: tricks bids always, the
/// Mis bids only once the first round is complete.
pub open spec fn allowed_kind(b: Bid, mis_open: bool) -> bool {
    b is Tricks || ((b is Mis || b is OpenMis) && mis_open)
}

/// What `available_bids` returns: nothing for a player who has passed;
/// otherwise Pass followed by every bid above the floor whose kind is open,
/// in strictly ascending rank order, and no others.
pub open spec fn available_bids_spec(
    prev: Seq<Option<Bid>>,
    highest: Option<Bid>,
    pi: int,
    result: Seq<Bid>,
) -> bool {
    if prev[pi] == Some(Bid::Pass) {
        result.len() == 0
    } else {
        &&& result.len() >= 1
        &&& result[0] == Bid::Pass
        &&& forall|k: int|
            1 <= k < result.len() ==> valid_bid(#[trigger] result[k]) && bid_rank(result[k])
                > floor_rank(highest) && allowed_kind(result[k], all_have_bid(prev))
        &&& forall|k1: int, k2: int|
            0 <= k1 < k2 < result.len() ==> bid_rank(result[k1]) < bid_rank(result[k2])
        &&& forall|b: Bid|
            valid_bid(b) && bid_rank(b) > floor_rank(highest) && allowed_kind(
                b,
                all_have_bid(prev),
            ) ==> result.contains(b)
    }
}

impl Bidding {
    /// The bids the given player may make now. A player who has passed may
    /// never re-enter the auction and is offered nothing; anyone else is
    /// offered Pass and every bid above the standing highest, with the Mis
    /// bids held back until all four players have bid once.
    pub fn available_bids(&self, player_index: usize) -> (bids: Vec<Bid>)
        requires
            self.prev_bids@.len() == 4,
            player_index < 4,
            self.highest_bid matches Some(h) ==> valid_bid(h),
        ensures
            available_bids_spec(self.prev_bids@, self.highest_bid, player_index as int, bids@),
    {
        let mut bids: Vec<Bid> = Vec::new();

        // A player who has passed is out of the auction.
        match self.prev_bids[player_index] {
            Some(Bid::Pass) => {
                return bids;
            },
            _ => {},
        }
        bids.push(Bid::Pass);

        // The Mis bids open up only once every player has bid.
        let mut seen: usize = 0;
        let mut j: usize = 0;
        while j < 4
            invariant
                j <= 4,
                self.prev_bids@.len() == 4,
                seen <= j,
                seen == j <==> (forall|k: int| 0 <= k < j ==> self.prev_bids@[k] is Some),
            decreases 4 - j,
        {
            match self.prev_bids[j] {
                Some(_) => {
                    seen = seen + 1;
                },
                None => {},
            }
            j = j + 1;
        }
        let mis_open = seen == 4;

        let mut cur: Bid = match self.highest_bid {
            Some(h) => h,
            None => Bid::Pass,
        };
        let ghost floor = bid_rank(cur);
        proof {
            crate::types::lemma_bid_rank_inverse(cur);
            assert(floor == floor_rank(self.highest_bid));
        }

        while cur != Bid::OpenMis
            invariant
                valid_bid(cur),
                floor <= bid_rank(cur) <= 27,
                mis_open == all_have_bid(self.prev_bids@),
                floor == floor_rank(self.highest_bid),
                bids@.len() >= 1,
                bids@[0] == Bid::Pass,
                forall|k: int|
                    1 <= k < bids@.len() ==> valid_bid(#[trigger] bids@[k]) && floor < bid_rank(
                        bids@[k],
                    ) <= bid_rank(cur) && allowed_kind(bids@[k], mis_open),
                forall|k1: int, k2: int|
                    0 <= k1 < k2 < bids@.len() ==> bid_rank(bids@[k1]) < bid_rank(bids@[k2]),
                forall|b: Bid|
                    valid_bid(b) && floor < bid_rank(b) <= bid_rank(cur) && allowed_kind(
                        b,
                        mis_open,
                    ) ==> bids@.contains(b),
            decreases 27 - bid_rank(cur),
        {
            let nb = crate::types::next_bid(cur).unwrap();
            proof {
                crate::types::lemma_bid_rank_inverse(nb);
                assert forall|b2: Bid| valid_bid(b2) && bid_rank(b2) == bid_rank(nb) implies b2
                    == nb by {
                    crate::types::lemma_bid_rank_inverse(b2);
                }
            }
            let keep = match nb {
                Bid::Mis | Bid::OpenMis => mis_open,
                Bid::Tricks(_, _) => true,
                Bid::Pass => false,
            };
            let ghost pre = bids@;
            if keep {
                bids.push(nb);
                proof {
                    assert(bids@ == pre.push(nb));
                    assert(bids@[pre.len() as int] == nb);
                    assert forall|b: Bid| pre.contains(b) implies bids@.contains(b) by {
                        let i = choose|i: int| 0 <= i < pre.len() && pre[i] == b;
                        assert(bids@[i] == b);
                    }
                }
            }
            cur = nb;
        }
        proof {
            assert forall|b: Bid|
                valid_bid(b) && bid_rank(b) > floor_rank(self.highest_bid) && allowed_kind(
                    b,
                    all_have_bid(self.prev_bids@),
                ) implies bids@.contains(b) by {
                crate::types::lemma_bid_rank_inverse(b);
            }
        }
        bids
    }
}

/// The history a player holds mid-auction: the same lobby and match records,
/// the dealt hand, and a live bidding record with the given bids, current
/// bidder and options.
pub open spec fn auction_history(
    base: HistoryView,
    hand: Seq<Card>,
    bids: Seq<Option<Bid>>,
    cur: usize,
    opts: Option<Seq<Bid>>,
) -> HistoryView {
    HistoryView {
        game_history: Some(
            GameHistoryView {
                hand: hand,
                bidding_history: Some(
                    BiddingHistoryView { bid_options: opts, bids: bids, current_bidder_index: cur },
                ),
                winning_bid_history: None,
                plays_history: None,
            },
        ),
        ..base
    }
}

/// The next seat after `cur`, in rotation, held by a player who has not
/// passed; `cur` itself if everyone else has.
pub open spec fn next_active_from(prev: Seq<Option<Bid>>, cur: int, d: int) -> int
    decreases 4 - d,
{
    if d >= 4 {
        cur
    } else if prev[(cur + d) % 4] != Some(Bid::Pass) {
        (cur + d) % 4
    } else {
        next_active_from(prev, cur, d + 1)
    }
}

impl Bidding {
    /// The bids the auction admits from the current bidder: Pass, and any
    /// well-formed bid above the standing highest whose kind is open.
    pub open spec fn bid_legal(self, b: Bid) -> bool {
        b == Bid::Pass || (valid_bid(b) && bid_rank(b) > floor_rank(self.highest_bid)
            && allowed_kind(b, all_have_bid(self.prev_bids@)))
    }
}

/// A pass count never leaves `[0, len]`.
pub proof fn lemma_count_passes_le(s: Seq<Option<Bid>>)
    ensures
        0 <= count_passes(s) <= s.len(),
    decreases s.len(),
{
    if s.len() > 0 {
        lemma_count_passes_le(s.drop_last());
    }
}

/// A pass count below the length leaves somebody who has not passed.
pub proof fn lemma_count_passes_exists_nonpass(s: Seq<Option<Bid>>)
    requires
        count_passes(s) < s.len(),
    ensures
        exists|j: int| 0 <= j < s.len() && s[j] != Some(Bid::Pass),
    decreases s.len(),
{
    if s.len() > 0 {
        if s.last() != Some(Bid::Pass) {
            assert(s[s.len() - 1] != Some(Bid::Pass));
        } else {
            lemma_count_passes_le(s.drop_last());
            lemma_count_passes_exists_nonpass(s.drop_last());
            let j = choose|j: int|
                0 <= j < s.drop_last().len() && s.drop_last()[j] != Some(Bid::Pass);
            assert(s[j] != Some(Bid::Pass));
        }
    }
}

/// If everyone but one seat has passed, the pass count is at least the
/// length less one.
pub proof fn lemma_count_passes_all(s: Seq<Option<Bid>>)
    requires
        forall|j: int| 0 <= j < s.len() ==> s[j] == Some(Bid::Pass),
    ensures
        count_passes(s) == s.len(),
    decreases s.len(),
{
    if s.len() > 0 {
        lemma_count_passes_all(s.drop_last());
    }
}

pub proof fn lemma_count_passes_lower(s: Seq<Option<Bid>>, i: int)
    requires
        forall|j: int| 0 <= j < s.len() && j != i ==> s[j] == Some(Bid::Pass),
    ensures
        count_passes(s) >= s.len() - 1,
    decreases s.len(),
{
    if s.len() > 0 {
        if i == s.len() - 1 {
            lemma_count_passes_all(s.drop_last());
        } else {
            lemma_count_passes_lower(s.drop_last(), i);
        }
    }
}

/// The hand of one player and the kitty share no card, because all the cards
/// in play are distinct.
pub proof fn lemma_hand_kitty_no_dup(b: Bidding, j: int)
    requires
        b.hands@.len() == 4,
        b.kitty@.len() == 3,
        forall|k: int| 0 <= k < 4 ==> #[trigger] b.hands@[k]@.len() == 10,
        b.all_cards().no_duplicates(),
        0 <= j < 4,
    ensures
        (b.hands@[j]@ + b.kitty@).no_duplicates(),
{
    let s = b.all_cards();
    let hk = b.hands@[j]@ + b.kitty@;
    assert(s.len() == 43);
    assert forall|p: int| 0 <= p < 10 implies hk[p] == s[10 * j + p] by {}
    assert forall|p: int| 10 <= p < 13 implies hk[p] == s[30 + p] by {}
    assert forall|p: int, q: int| 0 <= p < q < 13 implies hk[p] != hk[q] by {
        let a = if p < 10 {
            10 * j + p
        } else {
            30 + p
        };
        let c = if q < 10 {
            10 * j + q
        } else {
            30 + q
        };
        assert(hk[p] == s[a] && hk[q] == s[c]);
        assert(0 <= a < c < 43);
    }
}

/// The next seat in rotation held by a player who has not passed.
fn next_active(prev: &Vec<Option<Bid>>, cur: usize) -> (r: usize)
    requires
        prev@.len() == 4,
        cur < 4,
        exists|j: int| 0 <= j < 4 && j != cur as int && prev@[j] != Some(Bid::Pass),
    ensures
        r as int == next_active_from(prev@, cur as int, 1),
        r < 4,
        r != cur,
        prev@[r as int] != Some(Bid::Pass),
{
    let c1 = (cur + 1) % 4;
    let p1 = match prev[c1] {
        Some(Bid::Pass) => true,
        _ => false,
    };
    if !p1 {
        return c1;
    }
    proof {
        assert(next_active_from(prev@, cur as int, 1) == next_active_from(prev@, cur as int, 2));
    }
    let c2 = (cur + 2) % 4;
    let p2 = match prev[c2] {
        Some(Bid::Pass) => true,
        _ => false,
    };
    if !p2 {
        return c2;
    }
    proof {
        assert(next_active_from(prev@, cur as int, 2) == next_active_from(prev@, cur as int, 3));
    }
    let c3 = (cur + 3) % 4;
    let p3 = match prev[c3] {
        Some(Bid::Pass) => true,
        _ => false,
    };
    if !p3 {
        return c3;
    }
    proof {
        let j = choose|j: int| 0 <= j < 4 && j != cur as int && prev@[j] != Some(Bid::Pass);
        assert(j == (cur as int + 1) % 4 || j == (cur as int + 2) % 4 || j == (cur as int + 3)
            % 4);
    }
    vstd::pervasive::unreached()
}

/// Counts how many players have most recently passed.
pub fn pass_count(prev: &Vec<Option<Bid>>) -> (n: usize)
    ensures
        n == count_passes(prev@),
{
    let mut n: usize = 0;
    let mut j: usize = 0;
    while j < prev.len()
        invariant
            j <= prev@.len(),
            n <= j,
            n == count_passes(prev@.subrange(0, j as int)),
        decreases prev@.len() - j,
    {
        proof {
            assert(prev@.subrange(0, (j + 1) as int).drop_last() =~= prev@.subrange(0, j as int));
            assert(prev@.subrange(0, (j + 1) as int).last() == prev@[j as int]);
        }
        match prev[j] {
            Some(Bid::Pass) => {
                n = n + 1;
            },
            _ => {},
        }
        j = j + 1;
    }
    proof {
        assert(prev@.subrange(0, prev@.len() as int) =~= prev@);
    }
    n
}

/// What one step in the auction does, case by case: strangers, turn
/// violations and unavailable bids are rejected with the state unchanged; a
/// legal bid is recorded and broadcast, and then the auction resolves,
/// redeals, or hands the turn to the next player still in.
pub open spec fn bidding_step_spec(
    st: Bidding,
    players0: Seq<(ClientId, History)>,
    players1: Seq<(ClientId, History)>,
    player_index: Option<usize>,
    id: Seq<char>,
    step: Step,
    outbox0: Seq<(ClientId, State)>,
    outbox1: Seq<(ClientId, State)>,
    next: Stage,
) -> bool {
    &&& (player_index is None ==> {
                &&& players1 == players0
                &&& next == Stage::Bidding(st)
                &&& outbox_extended(outbox0, outbox1, 1)
                &&& nonplayer_rejected(outbox1.last(), id, step)
    })
    &&& (player_index matches Some(i) ==> (!(step is MakeBid) ==> {
                &&& next == Stage::Bidding(st)
                &&& rejected_with_error(
                    players0,
                    players1,
                    outbox0,
                    outbox1,
                    i as int,
                    id,
                    "Invalid step while bidding."@,
                )
    }))
    &&& (player_index matches Some(i) ==> (step matches Step::MakeBid(bid) ==> {
                &&& (i != st.current_bidder_index ==> next == Stage::Bidding(st)
                    && rejected_with_error(
                    players0,
                    players1,
                    outbox0,
                    outbox1,
                    i as int,
                    id,
                    "Not your turn to bid."@,
                ))
                &&& (i == st.current_bidder_index && !st.bid_legal(bid) ==> next
                    == Stage::Bidding(st) && rejected_with_error(
                    players0,
                    players1,
                    outbox0,
                    outbox1,
                    i as int,
                    id,
                    "You tried to make a bid that is unavailable to you."@,
                ))
                &&& (i == st.current_bidder_index && st.bid_legal(bid) ==> {
                    let prev2 = st.prev_bids@.update(i as int, Some(bid));
                    let highest2 = if bid == Bid::Pass {
                        st.highest_bid
                    } else {
                        Some(bid)
                    };
                    let winner2 = if bid == Bid::Pass {
                        st.highest_bidder_index
                    } else {
                        i
                    };
                    let passes2 = count_passes(prev2);
                    let resolved = bid == Bid::OpenMis || (highest2 is Some && passes2 == 3);
                    &&& forall|j: int|
                        0 <= j < 4 ==> sends_to(
                            #[trigger] outbox1[outbox0.len() + j],
                            players0[j].0@,
                            CurrentState::PlayerBid,
                            auction_history(
                                players0[j].1@,
                                st.hands@[j]@,
                                prev2,
                                st.current_bidder_index,
                                None,
                            ),
                        )
                    &&& (resolved ==> (next matches Stage::BidWon(w) && {
                        &&& w.wf(players1)
                        &&& w.winning_bidder_index == winner2
                        &&& w.kitty@ == st.kitty@
                        &&& highest2 matches Some(hb) && {
                            &&& forall|j: int|
                                0 <= j < 4 ==> players1[j].1@
                                    == crate::bid_won::bid_won_history(
                                    auction_history(
                                        players0[j].1@,
                                        st.hands@[j]@,
                                        prev2,
                                        st.current_bidder_index,
                                        None,
                                    ),
                                    st.hands@[j]@,
                                    winner2,
                                    hb,
                                    if j == winner2 {
                                        Some(st.kitty@)
                                    } else {
                                        None
                                    },
                                )
                            &&& forall|j: int|
                                0 <= j < 4 ==> sends_to(
                                    #[trigger] outbox1[outbox0.len() + 4 + j],
                                    players0[j].0@,
                                    CurrentState::BidWon,
                                    crate::bid_won::bid_won_history(
                                        auction_history(
                                            players0[j].1@,
                                            st.hands@[j]@,
                                            prev2,
                                            st.current_bidder_index,
                                            None,
                                        ),
                                        st.hands@[j]@,
                                        winner2,
                                        hb,
                                        None,
                                    ),
                                )
                            &&& forall|j: int|
                                0 <= j < 4 ==> sends_to(
                                    #[trigger] outbox1[outbox0.len() + 8 + j],
                                    players0[j].0@,
                                    if j == winner2 {
                                        CurrentState::WaitingForYourKitty
                                    } else {
                                        CurrentState::WaitingForTheirKitty
                                    },
                                    players1[j].1@,
                                )
                        }
                        &&& outbox_extended(outbox0, outbox1, 12)
                    }))
                    &&& (!resolved && passes2 == 4 ==> (next matches Stage::Bidding(b2) && {
                        &&& b2.wf(players1)
                        &&& b2.first_bidder_index == ((st.first_bidder_index + 1) % 4)
                        &&& b2.current_bidder_index == b2.first_bidder_index
                        &&& b2.highest_bid is None
                        &&& forall|j: int| 0 <= j < 4 ==> b2.prev_bids@[j] is None
                        &&& forall|j: int|
                            0 <= j < 4 && j != b2.first_bidder_index ==> players1[j].1@
                                == dealt_history(
                                players0[j].1.lobby_history,
                                b2.hands@[j]@,
                                b2.first_bidder_index,
                                None,
                            )
                        &&& ({
                            let h = players1[b2.first_bidder_index as int].1;
                            h.game_history->0.bidding_history->0.bid_options matches Some(o)
                                && available_bids_spec(
                                b2.prev_bids@,
                                None,
                                b2.first_bidder_index as int,
                                o@,
                            ) && h@ == dealt_history(
                                players0[b2.first_bidder_index as int].1.lobby_history,
                                b2.hands@[b2.first_bidder_index as int]@,
                                b2.first_bidder_index,
                                Some(o@),
                            )
                        })
                        &&& forall|j: int|
                            0 <= j < 4 ==> sends_to(
                                #[trigger] outbox1[outbox0.len() + 4 + 2 * j],
                                players0[j].0@,
                                CurrentState::HandDealt,
                                dealt_history(
                                    players0[j].1.lobby_history,
                                    b2.hands@[j]@,
                                    b2.first_bidder_index,
                                    None,
                                ),
                            )
                        &&& forall|j: int|
                            0 <= j < 4 ==> sends_to(
                                #[trigger] outbox1[outbox0.len() + 4 + 2 * j + 1],
                                players0[j].0@,
                                if j == b2.first_bidder_index {
                                    CurrentState::WaitingForYourBid
                                } else {
                                    CurrentState::WaitingForTheirBid
                                },
                                players1[j].1@,
                            )
                        &&& outbox_extended(outbox0, outbox1, 12)
                    }))
                    &&& (!resolved && passes2 != 4 ==> (next matches Stage::Bidding(b2) && {
                        let cur2 = next_active_from(prev2, i as int, 1);
                        &&& b2.wf(players1)
                        &&& b2.first_bidder_index == st.first_bidder_index
                        &&& b2.hands == st.hands
                        &&& b2.kitty == st.kitty
                        &&& b2.prev_bids@ == prev2
                        &&& b2.highest_bid == highest2
                        &&& b2.highest_bidder_index == winner2
                        &&& b2.current_bidder_index as int == cur2
                        &&& outbox_extended(outbox0, outbox1, 8)
                        &&& forall|j: int|
                            0 <= j < 4 && j != cur2 ==> players1[j].1@ == auction_history(
                                players0[j].1@,
                                st.hands@[j]@,
                                prev2,
                                b2.current_bidder_index,
                                None,
                            )
                        &&& ({
                            let h = players1[cur2].1;
                            h.game_history->0.bidding_history->0.bid_options matches Some(o)
                                && available_bids_spec(prev2, highest2, cur2, o@) && h@
                                == auction_history(
                                players0[cur2].1@,
                                st.hands@[cur2]@,
                                prev2,
                                b2.current_bidder_index,
                                Some(o@),
                            )
                        })
                        &&& forall|j: int|
                            0 <= j < 4 ==> sends_to(
                                #[trigger] outbox1[outbox0.len() + 4 + j],
                                players0[j].0@,
                                if j == cur2 {
                                    CurrentState::WaitingForYourBid
                                } else {
                                    CurrentState::WaitingForTheirBid
                                },
                                players1[j].1@,
                            )
                    }))
                })
    }))
}

impl Bidding {
    /// Applies one bid. Only the current bidder may act, and only with a bid
    /// the auction admits; the bid is recorded and broadcast, and then the
    /// auction either resolves (OpenMis, or a third pass beside a standing
    /// bid), redeals (all four players passed), or moves to the next player
    /// who has not passed. Every other action is rejected with the state
    /// unchanged.
    pub fn process_step(
        self,
        players: &mut Vec<(ClientId, History)>,
        player_index: Option<usize>,
        client_id: &ClientId,
        step: &Step,
        outbox: &mut Vec<(ClientId, State)>,
    ) -> (next: Stage)
        requires
            roster_wf(old(players)@),
            self.wf(old(players)@),
            index_matches(old(players)@, player_index, client_id@),
        ensures
            roster_wf(final(players)@),
            next.wf(final(players)@),
            final(players)@.len() == 4,
            forall|j: int| 0 <= j < 4 ==> final(players)@[j].0 == old(players)@[j].0,
            bidding_step_spec(
                self,
                old(players)@,
                final(players)@,
                player_index,
                client_id@,
                *step,
                old(outbox)@,
                final(outbox)@,
                next,
            ),
    {
        let index = reject_nonplayer(player_index, client_id, step, outbox);
        let i = match index {
            Some(i) => i,
            None => {
                return Stage::Bidding(self);
            },
        };
        match step {
            Step::MakeBid(bid) => {
                // Only the current bidder may act.
                if i != self.current_bidder_index {
                    process_bad_step(players, i, client_id, "Not your turn to bid.", outbox);
                    return Stage::Bidding(self);
                }
                // Only a bid the auction admits may be made.
                let avail = self.available_bids(i);
                let legal = contains_bid(&avail, *bid);
                proof {
                    assert(self.prev_bids@[i as int] != Some(Bid::Pass));
                    if legal {
                        let k = choose|k: int| 0 <= k < avail@.len() && avail@[k] == *bid;
                        assert(self.bid_legal(*bid));
                    }
                    if self.bid_legal(*bid) {
                        assert(avail@.contains(*bid));
                    }
                }
                if !legal {
                    process_bad_step(
                        players,
                        i,
                        client_id,
                        "You tried to make a bid that is unavailable to you.",
                        outbox,
                    );
                    return Stage::Bidding(self);
                }

                // Record the bid.
                let mut st = self;
                st.prev_bids[i] = Some(*bid);
                match bid {
                    Bid::Pass => {},
                    _ => {
                        st.highest_bid = Some(*bid);
                        st.highest_bidder_index = i;
                    },
                }
                let ghost prev2 = st.prev_bids@;
                proof {
                    assert(prev2 =~= self.prev_bids@.update(i as int, Some(*bid)));
                }

                // Broadcast the recorded bid to the whole table.
                let ghost players0 = players@;
                let ghost base = outbox@.len();
                let ghost outbox0 = outbox@;
                let mut j: usize = 0;
                while j < 4
                    invariant
                        players@.len() == 4,
                        players0.len() == 4,
                        j <= 4,
                        i < 4,
                        i == st.current_bidder_index,
                        st.current_bidder_index == self.current_bidder_index,
                        st.hands@ == self.hands@,
                        st.prev_bids@ == prev2,
                        prev2.len() == 4,
                        roster_wf(players0),
                        self.wf(players0),
                        forall|k: int| 0 <= k < 4 ==> #[trigger] players@[k].0 == players0[k].0,
                        forall|k: int| j <= k < 4 ==> #[trigger] players@[k].1 == players0[k].1,
                        forall|k: int|
                            0 <= k < j ==> (#[trigger] players@[k].1)@ == auction_history(
                                players0[k].1@,
                                self.hands@[k]@,
                                prev2,
                                self.current_bidder_index,
                                None,
                            ),
                        forall|k: int|
                            0 <= k < j ==> ((#[trigger] players@[k].1).game_history matches Some(
                                g,
                            ) && {
                                &&& g.hand@ == self.hands@[k]@
                                &&& g.bidding_history matches Some(bh) && bh.bids@ == prev2
                                    && bh.bid_options is None && bh.current_bidder_index
                                    == self.current_bidder_index
                                &&& g.winning_bid_history is None
                                &&& g.plays_history is None
                            }),
                        forall|k: int|
                            0 <= k < j ==> (#[trigger] players@[k].1).lobby_history
                                == players0[k].1.lobby_history && players@[k].1.match_history
                                == players0[k].1.match_history && players@[k].1.error is None
                                && players@[k].1.excluded_reason is None,
                        outbox@.len() == base + j,
                        forall|q: int| 0 <= q < base ==> #[trigger] outbox@[q] == outbox0[q],
                        forall|k: int|
                            0 <= k < j ==> sends_to(
                                #[trigger] outbox@[base + k],
                                players@[k].0@,
                                CurrentState::PlayerBid,
                                auction_history(
                                    players0[k].1@,
                                    self.hands@[k]@,
                                    prev2,
                                    self.current_bidder_index,
                                    None,
                                ),
                            ),
                    decreases 4 - j,
                {
                    let ghost pit = players@;
                    let bids_copy = clone_plain_vec(&st.prev_bids);
                    {
                        let entry = &mut players[j];
                        match &mut entry.1.game_history {
                            Some(g) => {
                                match &mut g.bidding_history {
                                    Some(bh) => {
                                        bh.bids = bids_copy;
                                        bh.bid_options = None;
                                    },
                                    None => {},
                                }
                            },
                            None => {},
                        }
                    }
                    proof {
                        assert(member_bidding_record(self, players0, j as int));
                        assert(member_lobby_record(players0, j as int));
                        assert(players@[j as int].1@ =~~= auction_history(
                            players0[j as int].1@,
                            self.hands@[j as int]@,
                            prev2,
                            self.current_bidder_index,
                            None,
                        ));
                    }
                    let h = players[j].1.clone();
                    push_msg(outbox, &players[j].0, CurrentState::PlayerBid, h);
                    proof {
                        assert forall|k: int| 0 <= k < j implies (#[trigger] players@[k].1)
                            == pit[k].1 by {}
                    }
                    j = j + 1;
                }
                proof {
                    assert forall|k: int| 0 <= k < 4 implies #[trigger] member_lobby_record(
                        players@,
                        k,
                    ) by {
                        assert(member_lobby_record(players0, k));
                    }
                    lemma_count_passes_le(prev2);
                }

                // Resolve, redeal, or advance the turn.
                let passes = pass_count(&st.prev_bids);
                let is_open_mis = match bid {
                    Bid::OpenMis => true,
                    _ => false,
                };
                let has_high = match st.highest_bid {
                    Some(_) => true,
                    None => false,
                };
                if is_open_mis || (has_high && passes == 3) {
                    // The auction is won.
                    let (widx, wbid) = match st.highest_bid {
                        Some(hb) => (st.highest_bidder_index, hb),
                        None => vstd::pervasive::unreached(),
                    };
                    proof {
                        assert(st.all_cards() =~= self.all_cards());
                        lemma_hand_kitty_no_dup(st, widx as int);
                        assert((players@[widx as int].1.game_history->0.hand@
                            + st.kitty@).no_duplicates());
                        assert(crate::bid_won::table_cards(players@, st.kitty@)
                            =~= st.all_cards());
                    }
                    let ghost mid_players = players@;
                    let ghost mid_len = outbox@.len();
                    let w = crate::bid_won::BidWon::new(players, outbox, widx, wbid, st.kitty);
                    proof {
                        assert forall|j: int| 0 <= j < 4 implies sends_to(
                            #[trigger] outbox@[base + 4 + j],
                            players0[j].0@,
                            CurrentState::BidWon,
                            crate::bid_won::bid_won_history(
                                auction_history(
                                    players0[j].1@,
                                    self.hands@[j]@,
                                    prev2,
                                    self.current_bidder_index,
                                    None,
                                ),
                                self.hands@[j]@,
                                widx,
                                wbid,
                                None,
                            ),
                        ) by {
                            assert(mid_players[j].1@ == auction_history(
                                players0[j].1@,
                                self.hands@[j]@,
                                prev2,
                                self.current_bidder_index,
                                None,
                            ));
                            assert(mid_players[j].1.game_history->0.hand@ == self.hands@[j]@);
                            assert(sends_to(
                                outbox@[mid_len + j],
                                mid_players[j].0@,
                                CurrentState::BidWon,
                                crate::bid_won::bid_won_history(
                                    mid_players[j].1@,
                                    mid_players[j].1.game_history->0.hand@,
                                    widx,
                                    wbid,
                                    None,
                                ),
                            ));
                        }
                        assert forall|j: int| 0 <= j < 4 implies sends_to(
                            #[trigger] outbox@[base + 8 + j],
                            players0[j].0@,
                            if j == widx {
                                CurrentState::WaitingForYourKitty
                            } else {
                                CurrentState::WaitingForTheirKitty
                            },
                            players@[j].1@,
                        ) by {
                            assert(sends_to(
                                outbox@[mid_len + 4 + j],
                                mid_players[j].0@,
                                if j == widx {
                                    CurrentState::WaitingForYourKitty
                                } else {
                                    CurrentState::WaitingForTheirKitty
                                },
                                players@[j].1@,
                            ));
                        }
                    }
                    Stage::BidWon(w)
                } else if passes == 4 {
                    // All four players passed: redeal, the opening turn moving
                    // one seat on.
                    let ghost mid_players = players@;
                    let ghost mid_len = outbox@.len();
                    let b2 = Bidding::new(players, outbox, (st.first_bidder_index + 1) % 4);
                    proof {
                        let first2 = b2.first_bidder_index;
                        assert forall|j: int| 0 <= j < 4 implies sends_to(
                            #[trigger] outbox@[base + 4 + 2 * j],
                            players0[j].0@,
                            CurrentState::HandDealt,
                            dealt_history(
                                players0[j].1.lobby_history,
                                b2.hands@[j]@,
                                first2,
                                None,
                            ),
                        ) by {
                            assert(mid_players[j].1.lobby_history == players0[j].1.lobby_history);
                            assert(sends_to(
                                outbox@[mid_len + 2 * j],
                                mid_players[j].0@,
                                CurrentState::HandDealt,
                                dealt_history(
                                    mid_players[j].1.lobby_history,
                                    b2.hands@[j]@,
                                    first2,
                                    None,
                                ),
                            ));
                        }
                        assert forall|j: int| 0 <= j < 4 implies sends_to(
                            #[trigger] outbox@[base + 4 + 2 * j + 1],
                            players0[j].0@,
                            if j == first2 {
                                CurrentState::WaitingForYourBid
                            } else {
                                CurrentState::WaitingForTheirBid
                            },
                            players@[j].1@,
                        ) by {
                            assert(sends_to(
                                outbox@[mid_len + 2 * j + 1],
                                mid_players[j].0@,
                                if j == first2 {
                                    CurrentState::WaitingForYourBid
                                } else {
                                    CurrentState::WaitingForTheirBid
                                },
                                players@[j].1@,
                            ));
                        }
                        assert forall|j: int| 0 <= j < 4 && j != first2 implies players@[j].1@
                            == dealt_history(
                            players0[j].1.lobby_history,
                            b2.hands@[j]@,
                            first2,
                            None,
                        ) by {
                            assert(mid_players[j].1.lobby_history == players0[j].1.lobby_history);
                        }
                        assert(mid_players[first2 as int].1.lobby_history == players0[
                            first2 as int].1.lobby_history);
                    }
                    Stage::Bidding(b2)
                } else {
                    // Hand the turn to the next player still in the auction.
                    proof {
                        if *bid == Bid::Pass {
                            lemma_count_passes_exists_nonpass(prev2);
                            let q = choose|q: int| 0 <= q < 4 && prev2[q] != Some(Bid::Pass);
                            assert(q != i as int && prev2[q] != Some(Bid::Pass));
                        } else {
                            if forall|q: int| 0 <= q < 4 && q != i as int ==> prev2[q] == Some(
                                Bid::Pass,
                            ) {
                                lemma_count_passes_lower(prev2, i as int);
                            }
                            let q = choose|q: int|
                                0 <= q < 4 && q != i as int && prev2[q] != Some(Bid::Pass);
                        }
                    }
                    let nc = next_active(&st.prev_bids, i);
                    st.current_bidder_index = nc;

                    let ghost players1 = players@;
                    let ghost outbox1 = outbox@;
                    let mut j: usize = 0;
                    while j < 4
                        invariant
                            players@.len() == 4,
                            players1.len() == 4,
                            j <= 4,
                            i < 4,
                            nc < 4,
                            nc == st.current_bidder_index,
                            st.prev_bids@ == prev2,
                            prev2.len() == 4,
                            prev2[nc as int] != Some(Bid::Pass),
                            st.hands@ == self.hands@,
                            st.highest_bid matches Some(h) ==> valid_bid(h),
                            roster_wf(players0),
                            self.wf(players0),
                            forall|k: int| 0 <= k < 4 ==> #[trigger] players@[k].0 == players1[k].0,
                            forall|k: int| j <= k < 4 ==> #[trigger] players@[k].1 == players1[k].1,
                            forall|k: int|
                                0 <= k < 4 ==> (#[trigger] players1[k].1)@ == auction_history(
                                    players0[k].1@,
                                    self.hands@[k]@,
                                    prev2,
                                    self.current_bidder_index,
                                    None,
                                ),
                            forall|k: int|
                                0 <= k < 4 ==> ((#[trigger] players1[k].1).game_history
                                    matches Some(g) && {
                                    &&& g.hand@ == self.hands@[k]@
                                    &&& g.bidding_history matches Some(bh) && bh.bids@ == prev2
                                        && bh.bid_options is None
                                    &&& g.winning_bid_history is None
                                    &&& g.plays_history is None
                                }),
                            forall|k: int|
                                0 <= k < 4 ==> (#[trigger] players1[k].1).lobby_history
                                    == players0[k].1.lobby_history && players1[k].1.match_history
                                    == players0[k].1.match_history && players1[k].1.error is None
                                    && players1[k].1.excluded_reason is None,
                            forall|k: int|
                                0 <= k < j && k != nc ==> (#[trigger] players@[k].1)@
                                    == auction_history(
                                    players0[k].1@,
                                    self.hands@[k]@,
                                    prev2,
                                    nc,
                                    None,
                                ),
                            forall|k: int|
                                0 <= k < j ==> #[trigger] member_bidding_record(st, players@, k),
                            forall|k: int|
                                0 <= k < j ==> (#[trigger] players@[k].1).lobby_history
                                    == players0[k].1.lobby_history && players@[k].1.match_history
                                    == players0[k].1.match_history && players@[k].1.error is None
                                    && players@[k].1.excluded_reason is None,
                            j > nc ==> ({
                                let h = players@[nc as int].1;
                                h.game_history->0.bidding_history->0.bid_options matches Some(o)
                                    && available_bids_spec(prev2, st.highest_bid, nc as int, o@)
                                    && h@ == auction_history(
                                    players0[nc as int].1@,
                                    self.hands@[nc as int]@,
                                    prev2,
                                    nc,
                                    Some(o@),
                                )
                            }),
                            outbox@.len() == base + 4 + j,
                            outbox1.len() == base + 4,
                            forall|q: int| 0 <= q < base + 4 ==> #[trigger] outbox@[q]
                                == outbox1[q],
                            forall|k: int|
                                0 <= k < j ==> sends_to(
                                    #[trigger] outbox@[base + 4 + k],
                                    players@[k].0@,
                                    if k == nc {
                                        CurrentState::WaitingForYourBid
                                    } else {
                                        CurrentState::WaitingForTheirBid
                                    },
                                    players@[k].1@,
                                ),
                        decreases 4 - j,
                    {
                        let ghost pit = players@;
                        let opts = if j == nc {
                            Some(st.available_bids(j))
                        } else {
                            None
                        };
                        {
                            let entry = &mut players[j];
                            match &mut entry.1.game_history {
                                Some(g) => {
                                    match &mut g.bidding_history {
                                        Some(bh) => {
                                            bh.bid_options = opts;
                                            bh.current_bidder_index = nc;
                                        },
                                        None => {},
                                    }
                                },
                                None => {},
                            }
                        }
                        proof {
                            if j == nc {
                                let o = players@[j as int].1.game_history->0.bidding_history->0
                                    .bid_options->0;
                                assert(players@[j as int].1@ =~~= auction_history(
                                    players0[j as int].1@,
                                    self.hands@[j as int]@,
                                    prev2,
                                    nc,
                                    Some(o@),
                                ));
                            } else {
                                assert(players@[j as int].1@ =~~= auction_history(
                                    players0[j as int].1@,
                                    self.hands@[j as int]@,
                                    prev2,
                                    nc,
                                    None,
                                ));
                            }
                            assert(member_bidding_record(st, players@, j as int));
                        }
                        let tag = if j == nc {
                            CurrentState::WaitingForYourBid
                        } else {
                            CurrentState::WaitingForTheirBid
                        };
                        let h = players[j].1.clone();
                        push_msg(outbox, &players[j].0, tag, h);
                        proof {
                            assert forall|k: int| 0 <= k < j implies (#[trigger] players@[k].1)
                                == pit[k].1 by {}
                        }
                        j = j + 1;
                    }
                    proof {
                        assert forall|k: int| 0 <= k < 4 implies #[trigger] member_lobby_record(
                            players@,
                            k,
                        ) by {
                            assert(member_lobby_record(players0, k));
                        }
                        assert(st.all_cards() =~= self.all_cards());
                        match st.highest_bid {
                            Some(hb) => {
                                assert forall|q: int| 0 <= q < 4 implies #[trigger] below_highest(
                                    prev2[q],
                                    hb,
                                ) by {
                                    if q != i as int {
                                        match self.highest_bid {
                                            Some(oh) => {
                                                assert(below_highest(self.prev_bids@[q], oh));
                                            },
                                            None => {
                                                assert(pass_or_none(self.prev_bids@[q]));
                                            },
                                        }
                                    }
                                }
                            },
                            None => {},
                        }
                    }
                    Stage::Bidding(st)
                }
            },
            _ => {
                process_bad_step(players, i, client_id, "Invalid step while bidding.", outbox);
                Stage::Bidding(self)
            },
        }
    }
}

/// Whether a vector of bids holds the given bid.
pub fn contains_bid(bids: &Vec<Bid>, bid: Bid) -> (r: bool)
    ensures
        r == bids@.contains(bid),
{
    let mut j: usize = 0;
    while j < bids.len()
        invariant
            j <= bids@.len(),
            forall|k: int| 0 <= k < j ==> bids@[k] != bid,
        decreases bids@.len() - j,
    {
        if bids[j] == bid {
            assert(bids@[j as int] == bid);
            return true;
        }
        j = j + 1;
    }
    false
}

} // verus!
