//! The terminal stage reached when a player leaves or disconnects: every
//! later action is answered with the same match-aborted notice.

use crate::api::{
    blank_history, outbox_extended, push_msg, sends_to, with_error, ClientId, CurrentState,
    History, HistoryView, State, Step,
};
use crate::stage::Stage;
use vstd::prelude::*;

verus! {

/// The aborted match. No action can revive it.
#[derive(Clone, Copy, Debug)]
pub struct Aborted {}

/// What one step against an aborted match does: nothing changes, and the
/// caller is sent the match-aborted notice again — a roster member gets its
/// last known history (which carries the abort reason), anyone else an
/// anonymous notice.
pub open spec fn aborted_step_spec(
    st: Aborted,
    players0: Seq<(ClientId, History)>,
    players1: Seq<(ClientId, History)>,
    player_index: Option<usize>,
    id: Seq<char>,
    step: Step,
    outbox0: Seq<(ClientId, State)>,
    outbox1: Seq<(ClientId, State)>,
    next: Stage,
) -> bool {
    &&& players1 == players0
    &&& next == Stage::Aborted(st)
    &&& outbox_extended(outbox0, outbox1, 1)
    &&& (player_index matches Some(i) ==> sends_to(
        outbox1.last(),
        id,
        CurrentState::MatchAborted,
        players0[i as int].1@,
    ))
    &&& (player_index is None ==> sends_to(
        outbox1.last(),
        id,
        CurrentState::MatchAborted,
        HistoryView { error: Some("Match aborted."@), ..blank_history() },
    ))
}

impl Aborted {
    /// Ignores the action and re-sends the match-aborted notice.
    pub fn process_step(
        self,
        players: &Vec<(ClientId, History)>,
        player_index: Option<usize>,
        client_id: &ClientId,
        step: &Step,
        outbox: &mut Vec<(ClientId, State)>,
    ) -> (next: Stage)
        requires
            player_index matches Some(i) ==> i < players@.len(),
        ensures
            aborted_step_spec(
                self,
                players@,
                players@,
                player_index,
                client_id@,
                *step,
                old(outbox)@,
                final(outbox)@,
                next,
            ),
    {
        match player_index {
            Some(i) => {
                let h = players[i].1.clone();
                push_msg(outbox, client_id, CurrentState::MatchAborted, h);
            },
            None => {
                let h = with_error(&History::blank(), "Match aborted.");
                push_msg(outbox, client_id, CurrentState::MatchAborted, h);
            },
        }
        Stage::Aborted(self)
    }
}

} // verus!
