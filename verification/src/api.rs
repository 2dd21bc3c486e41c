//! The messages exchanged with clients and the per-player history record,
//! together with the mathematical views that the engine's contracts speak of.

use crate::types::{Bid, Card, Play, Suit};
use vstd::prelude::*;

verus! {

/// Opaque identity handed to each connection when it is accepted.
pub type ClientId = String;

/// The actions a client can ask for.
#[derive(Debug)]
pub enum Step {
    /// Just ask to see state.
    Poll,
    /// Ask to join, naming a team index.
    Join(usize),
    /// Make a bid.
    MakeBid(Bid),
    /// Discard exactly three cards after winning the kitty.
    DiscardCards(Vec<Card>),
    /// Announce the suit of the joker in your hand.
    AnnounceJokerSuit(Suit),
    /// Choose a card (and possibly the suit of the joker) to play.
    MakePlay(Play),
    /// Exit the match early.
    Quit,
}

/// The tag attached to every outbound message, naming the state the session
/// has most recently reached from the recipient's point of view.
#[derive(Clone, Copy, Debug, PartialEq, Eq, Structural)]
pub enum CurrentState {
    PlayerJoined,
    Excluded,
    HandDealt,
    WaitingForYourBid,
    WaitingForTheirBid,
    PlayerBid,
    BidWon,
    WaitingForYourKitty,
    WaitingForTheirKitty,
    WaitingForYourJokerSuit,
    WaitingForTheirJokerSuit,
    JokerSuitAnnounced,
    WaitingForYourPlay,
    WaitingForTheirPlay,
    TrickWon,
    GameWon,
    ScoresUpdated,
    MatchWon,
    MatchAborted,
    Error,
}

/// Background information about the lobby.
#[derive(Clone, Copy, Debug, PartialEq, Eq, Structural)]
pub struct LobbyHistory {
    /// Number of players currently joined.
    pub player_count: usize,
    /// Your index in the player list.
    pub your_player_index: usize,
    /// Your index in the team list (in `[0, 1]`).
    pub your_team_index: usize,
}

/// Background information about the match.
#[derive(Debug)]
pub struct MatchHistory {
    /// Past games as (team 1 delta, team 1 total, team 2 delta, team 2 total).
    pub past_games: Vec<(isize, isize, isize, isize)>,
    /// The team that won the entire match, if it is over.
    pub winning_team_index: Option<usize>,
    /// The reason the match was aborted, if it has been.
    pub match_aborted_reason: Option<String>,
}

/// Background information about the bidding.
#[derive(Debug)]
pub struct BiddingHistory {
    /// Possible bids you can make, if it is your turn to bid.
    pub bid_options: Option<Vec<Bid>>,
    /// The last bids made by each player, ordered by player index.
    pub bids: Vec<Option<Bid>>,
    /// The player whose turn it is to bid.
    pub current_bidder_index: usize,
}

/// Background information about the bid that won.
#[derive(Debug)]
pub struct WinningBidHistory {
    pub winning_bidder_index: usize,
    /// Invariant: never a Pass.
    pub winning_bid: Bid,
    /// The cards in the kitty, shown only to the winning bidder.
    pub kitty: Option<Vec<Card>>,
}

/// Background information about the tricks being played.
#[derive(Debug)]
pub struct PlaysHistory {
    /// The joker suit, if fixed.
    pub joker_suit: Option<Suit>,
    pub your_tricks_count: usize,
    pub their_tricks_count: usize,
    /// The number of cards in each player's hand.
    pub hand_sizes: Vec<usize>,
    /// The previous trick, ordered by player index.
    pub previous_trick: Option<Vec<Option<Play>>>,
    pub previous_trick_winner: Option<usize>,
    /// The ongoing trick, ordered by player index.
    pub current_trick: Vec<Option<Play>>,
    pub currently_playing_player_index: usize,
    /// Your possible plays, if it is your turn.
    pub play_options: Option<Vec<Play>>,
}

/// Background information about the current game (one bidding, bid-won,
/// plays cycle).
#[derive(Debug)]
pub struct GameHistory {
    /// The cards in your hand.
    pub hand: Vec<Card>,
    pub bidding_history: Option<BiddingHistory>,
    pub winning_bid_history: Option<WinningBidHistory>,
    pub plays_history: Option<PlaysHistory>,
}

/// Everything one player may see. Sub-views are populated exactly while the
/// corresponding stage is live.
#[derive(Debug)]
pub struct History {
    pub lobby_history: Option<LobbyHistory>,
    pub match_history: Option<MatchHistory>,
    pub game_history: Option<GameHistory>,
    /// The reason you have been excluded, if you have been.
    pub excluded_reason: Option<String>,
    /// Some other error, if there is one.
    pub error: Option<String>,
}

/// Top-level message sent to one client.
#[derive(Debug)]
pub struct State {
    pub state: CurrentState,
    pub history: History,
}

/// The view of an optional vector: the sequence it holds, if any.
pub open spec fn opt_vec_view<T>(o: Option<Vec<T>>) -> Option<Seq<T>> {
    match o {
        Some(v) => Some(v@),
        None => None,
    }
}

/// The view of an optional string: the characters it holds, if any.
pub open spec fn opt_str_view(o: Option<String>) -> Option<Seq<char>> {
    match o {
        Some(s) => Some(s@),
        None => None,
    }
}

#[verifier::ext_equal]
pub struct MatchHistoryView {
    pub past_games: Seq<(isize, isize, isize, isize)>,
    pub winning_team_index: Option<usize>,
    pub match_aborted_reason: Option<Seq<char>>,
}

impl View for MatchHistory {
    type V = MatchHistoryView;

    open spec fn view(&self) -> MatchHistoryView {
        MatchHistoryView {
            past_games: self.past_games@,
            winning_team_index: self.winning_team_index,
            match_aborted_reason: opt_str_view(self.match_aborted_reason),
        }
    }
}

#[verifier::ext_equal]
pub struct BiddingHistoryView {
    pub bid_options: Option<Seq<Bid>>,
    pub bids: Seq<Option<Bid>>,
    pub current_bidder_index: usize,
}

impl View for BiddingHistory {
    type V = BiddingHistoryView;

    open spec fn view(&self) -> BiddingHistoryView {
        BiddingHistoryView {
            bid_options: opt_vec_view(self.bid_options),
            bids: self.bids@,
            current_bidder_index: self.current_bidder_index,
        }
    }
}

#[verifier::ext_equal]
pub struct WinningBidHistoryView {
    pub winning_bidder_index: usize,
    pub winning_bid: Bid,
    pub kitty: Option<Seq<Card>>,
}

impl View for WinningBidHistory {
    type V = WinningBidHistoryView;

    open spec fn view(&self) -> WinningBidHistoryView {
        WinningBidHistoryView {
            winning_bidder_index: self.winning_bidder_index,
            winning_bid: self.winning_bid,
            kitty: opt_vec_view(self.kitty),
        }
    }
}

#[verifier::ext_equal]
pub struct PlaysHistoryView {
    pub joker_suit: Option<Suit>,
    pub your_tricks_count: usize,
    pub their_tricks_count: usize,
    pub hand_sizes: Seq<usize>,
    pub previous_trick: Option<Seq<Option<Play>>>,
    pub previous_trick_winner: Option<usize>,
    pub current_trick: Seq<Option<Play>>,
    pub currently_playing_player_index: usize,
    pub play_options: Option<Seq<Play>>,
}

impl View for PlaysHistory {
    type V = PlaysHistoryView;

    open spec fn view(&self) -> PlaysHistoryView {
        PlaysHistoryView {
            joker_suit: self.joker_suit,
            your_tricks_count: self.your_tricks_count,
            their_tricks_count: self.their_tricks_count,
            hand_sizes: self.hand_sizes@,
            previous_trick: match self.previous_trick {
                Some(v) => Some(v@),
                None => None,
            },
            previous_trick_winner: self.previous_trick_winner,
            current_trick: self.current_trick@,
            currently_playing_player_index: self.currently_playing_player_index,
            play_options: opt_vec_view(self.play_options),
        }
    }
}

#[verifier::ext_equal]
pub struct GameHistoryView {
    pub hand: Seq<Card>,
    pub bidding_history: Option<BiddingHistoryView>,
    pub winning_bid_history: Option<WinningBidHistoryView>,
    pub plays_history: Option<PlaysHistoryView>,
}

impl View for GameHistory {
    type V = GameHistoryView;

    open spec fn view(&self) -> GameHistoryView {
        GameHistoryView {
            hand: self.hand@,
            bidding_history: match self.bidding_history {
                Some(b) => Some(b@),
                None => None,
            },
            winning_bid_history: match self.winning_bid_history {
                Some(w) => Some(w@),
                None => None,
            },
            plays_history: match self.plays_history {
                Some(p) => Some(p@),
                None => None,
            },
        }
    }
}

#[verifier::ext_equal]
pub struct HistoryView {
    pub lobby_history: Option<LobbyHistory>,
    pub match_history: Option<MatchHistoryView>,
    pub game_history: Option<GameHistoryView>,
    pub excluded_reason: Option<Seq<char>>,
    pub error: Option<Seq<char>>,
}

impl View for History {
    type V = HistoryView;

    open spec fn view(&self) -> HistoryView {
        HistoryView {
            lobby_history: self.lobby_history,
            match_history: match self.match_history {
                Some(m) => Some(m@),
                None => None,
            },
            game_history: match self.game_history {
                Some(g) => Some(g@),
                None => None,
            },
            excluded_reason: opt_str_view(self.excluded_reason),
            error: opt_str_view(self.error),
        }
    }
}

/// Copies a vector of plainly copyable items.
pub fn clone_plain_vec<T: Copy>(v: &Vec<T>) -> (r: Vec<T>)
    ensures
        r@ == v@,
{
    let mut r: Vec<T> = Vec::new();
    let mut i: usize = 0;
    while i < v.len()
        invariant
            i <= v.len(),
            r@ == v@.subrange(0, i as int),
        decreases v.len() - i,
    {
        r.push(v[i]);
        proof {
            assert(r@ =~= v@.subrange(0, i + 1 as int));
        }
        i = i + 1;
    }
    proof {
        assert(r@ =~= v@);
    }
    r
}

/// Copies an optional vector of plainly copyable items.
pub fn clone_opt_plain_vec<T: Copy>(o: &Option<Vec<T>>) -> (r: Option<Vec<T>>)
    ensures
        opt_vec_view(r) == opt_vec_view(*o),
{
    match o {
        Some(v) => Some(clone_plain_vec(v)),
        None => None,
    }
}

/// Copies an optional string.
pub fn clone_opt_string(o: &Option<String>) -> (r: Option<String>)
    ensures
        r == *o,
{
    match o {
        Some(s) => Some(s.clone()),
        None => None,
    }
}

impl Clone for MatchHistory {
    fn clone(&self) -> (res: Self)
        ensures
            res@ == self@,
    {
        MatchHistory {
            past_games: clone_plain_vec(&self.past_games),
            winning_team_index: self.winning_team_index,
            match_aborted_reason: clone_opt_string(&self.match_aborted_reason),
        }
    }
}

impl Clone for BiddingHistory {
    fn clone(&self) -> (res: Self)
        ensures
            res@ == self@,
    {
        BiddingHistory {
            bid_options: clone_opt_plain_vec(&self.bid_options),
            bids: clone_plain_vec(&self.bids),
            current_bidder_index: self.current_bidder_index,
        }
    }
}

impl Clone for WinningBidHistory {
    fn clone(&self) -> (res: Self)
        ensures
            res@ == self@,
    {
        WinningBidHistory {
            winning_bidder_index: self.winning_bidder_index,
            winning_bid: self.winning_bid,
            kitty: clone_opt_plain_vec(&self.kitty),
        }
    }
}

impl Clone for PlaysHistory {
    fn clone(&self) -> (res: Self)
        ensures
            res@ == self@,
    {
        PlaysHistory {
            joker_suit: self.joker_suit,
            your_tricks_count: self.your_tricks_count,
            their_tricks_count: self.their_tricks_count,
            hand_sizes: clone_plain_vec(&self.hand_sizes),
            previous_trick: clone_opt_plain_vec(&self.previous_trick),
            previous_trick_winner: self.previous_trick_winner,
            current_trick: clone_plain_vec(&self.current_trick),
            currently_playing_player_index: self.currently_playing_player_index,
            play_options: clone_opt_plain_vec(&self.play_options),
        }
    }
}

impl Clone for GameHistory {
    fn clone(&self) -> (res: Self)
        ensures
            res@ == self@,
    {
        GameHistory {
            hand: clone_plain_vec(&self.hand),
            bidding_history: match &self.bidding_history {
                Some(b) => Some(b.clone()),
                None => None,
            },
            winning_bid_history: match &self.winning_bid_history {
                Some(w) => Some(w.clone()),
                None => None,
            },
            plays_history: match &self.plays_history {
                Some(p) => Some(p.clone()),
                None => None,
            },
        }
    }
}

impl Clone for History {
    fn clone(&self) -> (res: Self)
        ensures
            res@ == self@,
    {
        History {
            lobby_history: self.lobby_history,
            match_history: match &self.match_history {
                Some(m) => Some(m.clone()),
                None => None,
            },
            game_history: match &self.game_history {
                Some(g) => Some(g.clone()),
                None => None,
            },
            excluded_reason: clone_opt_string(&self.excluded_reason),
            error: clone_opt_string(&self.error),
        }
    }
}

/// The history that says nothing at all.
pub open spec fn blank_history() -> HistoryView {
    HistoryView {
        lobby_history: None,
        match_history: None,
        game_history: None,
        excluded_reason: None,
        error: None,
    }
}

impl History {
    /// A history with every sub-view unpopulated.
    pub fn blank() -> (h: History)
        ensures
            h@ == blank_history(),
    {
        History {
            lobby_history: None,
            match_history: None,
            game_history: None,
            excluded_reason: None,
            error: None,
        }
    }
}

/// A copy of `h` carrying an error reason.
pub fn with_error(h: &History, msg: &str) -> (r: History)
    ensures
        r@ == (HistoryView { error: Some(msg@), ..h@ }),
{
    let mut r = h.clone();
    r.error = Some(String::from_str(msg));
    r
}

/// A copy of `h` carrying an exclusion reason.
pub fn with_excluded(h: &History, msg: &str) -> (r: History)
    ensures
        r@ == (HistoryView { excluded_reason: Some(msg@), ..h@ }),
{
    let mut r = h.clone();
    r.excluded_reason = Some(String::from_str(msg));
    r
}

/// What it means for one outbox entry to carry a given message.
pub open spec fn sends_to(
    m: (ClientId, State),
    to: Seq<char>,
    tag: CurrentState,
    h: HistoryView,
) -> bool {
    m.0@ == to && m.1.state == tag && m.1.history@ == h
}

/// The new outbox holds the old one as a prefix, followed by `k` more
/// messages.
pub open spec fn outbox_extended(
    old_ob: Seq<(ClientId, State)>,
    new_ob: Seq<(ClientId, State)>,
    k: int,
) -> bool {
    &&& new_ob.len() == old_ob.len() + k
    &&& forall|i: int| 0 <= i < old_ob.len() ==> new_ob[i] == old_ob[i]
}

/// Appends one message to the outbox.
pub fn push_msg(
    outbox: &mut Vec<(ClientId, State)>,
    to: &ClientId,
    state: CurrentState,
    history: History,
)
    ensures
        final(outbox)@.len() == old(outbox)@.len() + 1,
        forall|i: int| 0 <= i < old(outbox)@.len() ==> final(outbox)@[i] == old(outbox)@[i],
        sends_to(final(outbox)@.last(), to@, state, history@),
{
    outbox.push((to.clone(), State { state, history }));
}

/// The game sub-history, which the caller must know to be populated.
pub fn unwrap_game_history(h: &History) -> (g: &GameHistory)
    requires
        h.game_history is Some,
    ensures
        h@.game_history == Some(g@),
{
    match &h.game_history {
        Some(g) => g,
        None => vstd::pervasive::unreached(),
    }
}

/// The winning-bid sub-history, which the caller must know to be populated.
pub fn unwrap_winning_bid_history(h: &History) -> (w: &WinningBidHistory)
    requires
        h.game_history is Some,
        h.game_history->0.winning_bid_history is Some,
    ensures
        h@.game_history->0.winning_bid_history == Some(w@),
{
    match &unwrap_game_history(h).winning_bid_history {
        Some(w) => w,
        None => vstd::pervasive::unreached(),
    }
}

} // verus!
