//! The stage reached once the auction winner has settled the kitty. Trick
//! play itself (joker declaration, plays, trick resolution, scoring) is not
//! part of the engine yet: the state machine ends at the transition into
//! play, and this stage answers every further action with a stage-scoped
//! error.

use crate::api::{
    outbox_extended, sends_to, ClientId, CurrentState, History, HistoryView, State, Step,
};
use crate::stage::{
    index_matches, nonplayer_rejected, process_bad_step, reject_nonplayer, Stage,
};
use vstd::prelude::*;

verus! {

/// The trick-play stage. It holds the table at four players; the play
/// actions themselves are not handled yet.
#[derive(Clone, Copy, Debug)]
pub struct Playing {}

/// What one step during play does: nothing changes, a non-member is answered
/// as in any running match, and a member receives a stage-scoped error.
pub open spec fn playing_step_spec(
    st: Playing,
    players0: Seq<(ClientId, History)>,
    players1: Seq<(ClientId, History)>,
    player_index: Option<usize>,
    id: Seq<char>,
    step: Step,
    outbox0: Seq<(ClientId, State)>,
    outbox1: Seq<(ClientId, State)>,
    next: Stage,
) -> bool {
    &&& players1 == players0
    &&& next == Stage::Playing(st)
    &&& outbox_extended(outbox0, outbox1, 1)
    &&& (player_index matches Some(i) ==> sends_to(
        outbox1.last(),
        id,
        CurrentState::Error,
        HistoryView {
            error: Some("Invalid step while playing tricks."@),
            ..players0[i as int].1@
        },
    ))
    &&& (player_index is None ==> nonplayer_rejected(outbox1.last(), id, step))
}

impl Playing {
    /// Rejects whatever a client asks for. The roster never changes.
    pub fn process_step(
        self,
        players: &Vec<(ClientId, History)>,
        player_index: Option<usize>,
        client_id: &ClientId,
        step: &Step,
        outbox: &mut Vec<(ClientId, State)>,
    ) -> (next: Stage)
        requires
            players@.len() == 4,
            index_matches(players@, player_index, client_id@),
        ensures
            playing_step_spec(
                self,
                players@,
                players@,
                player_index,
                client_id@,
                *step,
                old(outbox)@,
                final(outbox)@,
                next,
            ),
    {
        let index = reject_nonplayer(player_index, client_id, step, outbox);
        if let Some(i) = index {
            process_bad_step(players, i, client_id, "Invalid step while playing tricks.", outbox);
        }
        Stage::Playing(self)
    }
}

} // verus!
