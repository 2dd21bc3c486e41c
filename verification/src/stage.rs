//! The stage state machine: roster well-formedness, the common rejection
//! paths, and the sum of all stages.

use crate::aborted::Aborted;
use crate::api::{
    blank_history, outbox_extended, push_msg, sends_to, with_error, with_excluded, ClientId,
    CurrentState, History, HistoryView, LobbyHistory, State, Step,
};
use crate::bid_won::BidWon;
use crate::bidding::Bidding;
use crate::lobby::Lobby;
use crate::playing::Playing;
use vstd::prelude::*;

verus! {

/// No two roster entries share a client identity.
pub open spec fn roster_ids_distinct(players: Seq<(ClientId, History)>) -> bool {
    forall|i: int, j: int| 0 <= i < j < players.len() ==> players[i].0@ != players[j].0@
}

/// The lobby record every roster member carries: the current roster size and
/// the member's own position and team, beside a match record. Stored
/// histories never carry the transient error or exclusion fields; those are
/// set only on the copies sent in response to an offending request.
pub open spec fn member_lobby_record(players: Seq<(ClientId, History)>, i: int) -> bool {
    &&& players[i].1.lobby_history == Some(
        LobbyHistory {
            player_count: players.len() as usize,
            your_player_index: i as usize,
            your_team_index: (i % 2) as usize,
        },
    )
    &&& players[i].1.match_history is Some
    &&& players[i].1.excluded_reason is None
    &&& players[i].1.error is None
}

/// One member's record after an abort: its match record survives and still
/// carries the abort reason.
pub open spec fn aborted_member_record(h: History) -> bool {
    h.match_history matches Some(m) && m.match_aborted_reason is Some
}

/// After an abort, every member's record carries the reason, so the Aborted
/// stage can keep re-serving it.
pub open spec fn aborted_roster(players: Seq<(ClientId, History)>) -> bool {
    forall|j: int| 0 <= j < players.len() ==> #[trigger] aborted_member_record(players[j].1)
}

/// The roster invariant: at most four members, all distinct, each carrying a
/// lobby record for its own position and a match record.
pub open spec fn roster_wf(players: Seq<(ClientId, History)>) -> bool {
    &&& players.len() <= 4
    &&& roster_ids_distinct(players)
    &&& forall|i: int| 0 <= i < players.len() ==> #[trigger] member_lobby_record(players, i)
}

/// `player_index` names the caller's roster position exactly when the caller
/// is a member.
pub open spec fn index_matches(
    players: Seq<(ClientId, History)>,
    player_index: Option<usize>,
    id: Seq<char>,
) -> bool {
    match player_index {
        Some(i) => i < players.len() && players[i as int].0@ == id,
        None => forall|j: int| 0 <= j < players.len() ==> players[j].0@ != id,
    }
}

/// On a roster of distinct identities, at most one index answer matches a
/// given caller.
pub proof fn lemma_index_matches_unique(
    players: Seq<(ClientId, History)>,
    id: Seq<char>,
    a: Option<usize>,
    b: Option<usize>,
)
    requires
        roster_ids_distinct(players),
        index_matches(players, a, id),
        index_matches(players, b, id),
    ensures
        a == b,
{
    match (a, b) {
        (Some(i), Some(j)) => {
            if i < j {
                assert(players[i as int].0@ != players[j as int].0@);
            }
            if j < i {
                assert(players[j as int].0@ != players[i as int].0@);
            }
        },
        (Some(i), None) => {
            assert(players[i as int].0@ != id);
        },
        (None, Some(j)) => {
            assert(players[j as int].0@ != id);
        },
        (None, None) => {},
    }
}

/// Sends a stage-scoped error to a roster member: its own history with the
/// reason attached, under the Error tag.
pub fn process_bad_step(
    players: &Vec<(ClientId, History)>,
    i: usize,
    client_id: &ClientId,
    msg: &str,
    outbox: &mut Vec<(ClientId, State)>,
)
    requires
        i < players@.len(),
    ensures
        outbox_extended(old(outbox)@, final(outbox)@, 1),
        sends_to(
            final(outbox)@.last(),
            client_id@,
            CurrentState::Error,
            HistoryView { error: Some(msg@), ..players@[i as int].1@ },
        ),
{
    let h = with_error(&players[i].1, msg);
    push_msg(outbox, client_id, CurrentState::Error, h);
}

/// What a non-member is told once the match has left the lobby: a join
/// attempt is excluded because the match has started; anything else is a
/// plain error.
pub open spec fn nonplayer_rejected(
    appended: (ClientId, State),
    id: Seq<char>,
    step: Step,
) -> bool {
    if step is Join {
        sends_to(
            appended,
            id,
            CurrentState::Excluded,
            HistoryView { excluded_reason: Some("Match has started."@), ..blank_history() },
        )
    } else {
        sends_to(
            appended,
            id,
            CurrentState::Error,
            HistoryView {
                error: Some("You are not a player in this game."@),
                ..blank_history()
            },
        )
    }
}

/// What a rejected member request leaves behind: the roster untouched and one
/// Error response to the caller, carrying its own history and the reason.
pub open spec fn rejected_with_error(
    players_old: Seq<(ClientId, History)>,
    players_new: Seq<(ClientId, History)>,
    outbox_old: Seq<(ClientId, State)>,
    outbox_new: Seq<(ClientId, State)>,
    i: int,
    id: Seq<char>,
    msg: Seq<char>,
) -> bool {
    &&& players_new == players_old
    &&& outbox_extended(outbox_old, outbox_new, 1)
    &&& sends_to(
        outbox_new.last(),
        id,
        CurrentState::Error,
        HistoryView { error: Some(msg), ..players_old[i].1@ },
    )
}

/// Answers a caller that is not in the roster, and hands a member's index
/// back unchanged.
pub fn reject_nonplayer(
    player_index: Option<usize>,
    client_id: &ClientId,
    step: &Step,
    outbox: &mut Vec<(ClientId, State)>,
) -> (r: Option<usize>)
    ensures
        r == player_index,
        player_index is Some ==> *final(outbox) == *old(outbox),
        player_index is None ==> outbox_extended(old(outbox)@, final(outbox)@, 1)
            && nonplayer_rejected(final(outbox)@.last(), client_id@, *step),
{
    match player_index {
        Some(i) => Some(i),
        None => {
            if let Step::Join(_) = step {
                let h = with_excluded(&History::blank(), "Match has started.");
                push_msg(outbox, client_id, CurrentState::Excluded, h);
            } else {
                let h = with_error(&History::blank(), "You are not a player in this game.");
                push_msg(outbox, client_id, CurrentState::Error, h);
            }
            None
        },
    }
}

/// The mutually exclusive stages of one session. Exactly one is live at a
/// time; every transition consumes the old stage and produces the next.
#[derive(Debug)]
pub enum Stage {
    Lobby(Lobby),
    Bidding(Bidding),
    BidWon(BidWon),
    Playing(Playing),
    Aborted(Aborted),
}

impl Stage {
    /// The invariant each stage keeps with the roster it governs. A match in
    /// progress always has exactly four players; the lobby only exists while
    /// the roster is short.
    pub open spec fn wf(self, players: Seq<(ClientId, History)>) -> bool {
        match self {
            Stage::Lobby(_) => players.len() < 4,
            Stage::Bidding(b) => b.wf(players),
            Stage::BidWon(w) => w.wf(players),
            Stage::Playing(_) => players.len() == 4,
            Stage::Aborted(_) => aborted_roster(players),
        }
    }

    /// The transition relation of the whole state machine: what the live
    /// stage does with one step, as stated on that stage's own transition.
    pub open spec fn step_spec(
        self,
        players0: Seq<(ClientId, History)>,
        players1: Seq<(ClientId, History)>,
        player_index: Option<usize>,
        id: Seq<char>,
        step: Step,
        outbox0: Seq<(ClientId, State)>,
        outbox1: Seq<(ClientId, State)>,
        next: Stage,
    ) -> bool {
        match self {
            Stage::Lobby(l) => crate::lobby::lobby_step_spec(
                l,
                players0,
                players1,
                player_index,
                id,
                step,
                outbox0,
                outbox1,
                next,
            ),
            Stage::Bidding(b) => crate::bidding::bidding_step_spec(
                b,
                players0,
                players1,
                player_index,
                id,
                step,
                outbox0,
                outbox1,
                next,
            ),
            Stage::BidWon(w) => crate::bid_won::bid_won_step_spec(
                w,
                players0,
                players1,
                player_index,
                id,
                step,
                outbox0,
                outbox1,
                next,
            ),
            Stage::Playing(p) => crate::playing::playing_step_spec(
                p,
                players0,
                players1,
                player_index,
                id,
                step,
                outbox0,
                outbox1,
                next,
            ),
            Stage::Aborted(a) => crate::aborted::aborted_step_spec(
                a,
                players0,
                players1,
                player_index,
                id,
                step,
                outbox0,
                outbox1,
                next,
            ),
        }
    }

    /// Hands one client action to whichever stage is live, and returns the
    /// stage that follows. The step's full effect is pinned by `step_spec`,
    /// the transition relation of whichever stage was live; beside it, the
    /// roster only ever grows, nobody is renamed, and messages are only
    /// appended to the outbox.
    pub fn process_step(
        self,
        players: &mut Vec<(ClientId, History)>,
        player_index: Option<usize>,
        client_id: &ClientId,
        step: &Step,
        outbox: &mut Vec<(ClientId, State)>,
    ) -> (next: Stage)
        requires
            roster_wf(old(players)@),
            self.wf(old(players)@),
            index_matches(old(players)@, player_index, client_id@),
        ensures
            roster_wf(final(players)@),
            next.wf(final(players)@),
            self.step_spec(
                old(players)@,
                final(players)@,
                player_index,
                client_id@,
                *step,
                old(outbox)@,
                final(outbox)@,
                next,
            ),
            old(players)@.len() <= final(players)@.len(),
            forall|j: int|
                0 <= j < old(players)@.len() ==> final(players)@[j].0 == old(players)@[j].0,
            old(outbox)@.len() <= final(outbox)@.len(),
            forall|q: int| 0 <= q < old(outbox)@.len() ==> final(outbox)@[q] == old(outbox)@[q],
    {
        match self {
            Stage::Lobby(l) => l.process_step(players, player_index, client_id, step, outbox),
            Stage::Bidding(b) => b.process_step(players, player_index, client_id, step, outbox),
            Stage::BidWon(w) => w.process_step(players, player_index, client_id, step, outbox),
            Stage::Playing(p) => p.process_step(players, player_index, client_id, step, outbox),
            Stage::Aborted(a) => a.process_step(players, player_index, client_id, step, outbox),
        }
    }
}

} // verus!
