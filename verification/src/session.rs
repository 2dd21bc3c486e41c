//! The top-level session: one roster and one live stage per match, driven by
//! the serialized stream of client events.

use crate::aborted::Aborted;
use crate::api::{
    outbox_extended, push_msg, sends_to, with_error, ClientId, CurrentState, History, HistoryView,
    MatchHistoryView, State, Step,
};
use crate::lobby::Lobby;
use crate::stage::{index_matches, member_lobby_record, roster_wf, Stage};
use vstd::prelude::*;

verus! {

/// The events that can originate from a client, as the session sees them:
/// an action, or the client's connection going away. Connection registration
/// itself is bookkeeping for the delivery layer and never reaches the
/// session.
pub enum ClientEventPayload {
    Step(Step),
    Disconnect,
}

/// One inbound event, tagged with the client it came from.
pub struct ClientEvent {
    pub id: ClientId,
    pub payload: ClientEventPayload,
}

/// One match: its roster and its live stage.
pub struct Session {
    /// The confirmed players and their per-player views. Clients that never
    /// joined are not in here.
    pub players: Vec<(ClientId, History)>,
    /// The live stage. Held in an Option only so that ownership can pass
    /// through each transition; between events it is always populated.
    pub stage: Option<Stage>,
}

/// The outbox slot, counting from the start of the abort broadcast, that
/// carries the notice for member `j` when member `leaver` is skipped.
pub open spec fn abort_slot(j: int, leaver: int) -> int {
    if j < leaver {
        j
    } else {
        j - 1
    }
}

/// The view every remaining member holds after an abort: its old history
/// with the abort reason written into the match record.
pub open spec fn aborted_history(base: HistoryView, reason: Seq<char>) -> HistoryView {
    HistoryView {
        match_history: match base.match_history {
            Some(m) => Some(MatchHistoryView { match_aborted_reason: Some(reason), ..m }),
            None => None,
        },
        ..base
    }
}

impl Session {
    /// The session invariant: a well-formed roster of at most four players,
    /// and a live stage whose own invariant holds of that roster.
    pub open spec fn wf(self) -> bool {
        &&& roster_wf(self.players@)
        &&& self.stage matches Some(st) && st.wf(self.players@)
    }

    /// A fresh session: an empty roster in the lobby.
    pub fn new() -> (s: Session)
        ensures
            s.wf(),
            s.players@.len() == 0,
            s.stage == Some(Stage::Lobby(Lobby { game_index: 0 })),
    {
        Session { players: Vec::new(), stage: Some(Stage::Lobby(Lobby::new(0))) }
    }

    /// The roster position of the given client, if it is a player.
    pub fn player_index(&self, id: &ClientId) -> (r: Option<usize>)
        ensures
            index_matches(self.players@, r, id@),
    {
        let mut j: usize = 0;
        while j < self.players.len()
            invariant
                j <= self.players@.len(),
                forall|k: int| 0 <= k < j ==> self.players@[k].0@ != id@,
            decreases self.players@.len() - j,
        {
            if self.players[j].0 == *id {
                return Some(j);
            }
            j = j + 1;
        }
        None
    }

    /// Ends the match: writes the reason into every member's match record,
    /// tells every member but the leaver, and drops into the Aborted stage.
    fn abort_match(
        &mut self,
        leaver: usize,
        reason: &str,
        outbox: &mut Vec<(ClientId, State)>,
    )
        requires
            old(self).wf(),
            leaver < old(self).players@.len(),
        ensures
            final(self).wf(),
            final(self).stage == Some(Stage::Aborted(Aborted {  })),
            final(self).players@.len() == old(self).players@.len(),
            forall|j: int|
                0 <= j < old(self).players@.len() ==> final(self).players@[j].0 == old(
                    self,
                ).players@[j].0,
            forall|j: int|
                0 <= j < old(self).players@.len() ==> final(self).players@[j].1@
                    == aborted_history(old(self).players@[j].1@, reason@),
            outbox_extended(old(outbox)@, final(outbox)@, old(self).players@.len() - 1),
            forall|j: int|
                0 <= j < old(self).players@.len() && j != leaver ==> sends_to(
                    #[trigger] final(outbox)@[old(outbox)@.len() + abort_slot(j, leaver as int)],
                    old(self).players@[j].0@,
                    CurrentState::MatchAborted,
                    aborted_history(old(self).players@[j].1@, reason@),
                ),
    {
        let ghost players0 = self.players@;
        let n = self.players.len();

        let mut j: usize = 0;
        while j < n
            invariant
                self.players@.len() == n,
                players0.len() == n,
                n <= 4,
                j <= n,
                self.stage == old(self).stage,
                roster_wf(players0),
                forall|k: int| 0 <= k < n ==> #[trigger] self.players@[k].0 == players0[k].0,
                forall|k: int| j <= k < n ==> #[trigger] self.players@[k].1 == players0[k].1,
                forall|k: int|
                    0 <= k < j ==> (#[trigger] self.players@[k].1)@ == aborted_history(
                        players0[k].1@,
                        reason@,
                    ),
                forall|k: int|
                    0 <= k < j ==> (#[trigger] self.players@[k].1).lobby_history
                        == players0[k].1.lobby_history && self.players@[k].1.match_history
                        is Some && self.players@[k].1.error is None
                        && self.players@[k].1.excluded_reason is None,
                outbox@ == old(outbox)@,
            decreases n - j,
        {
            let ghost pit = self.players@;
            {
                let entry = &mut self.players[j];
                match &mut entry.1.match_history {
                    Some(m) => {
                        m.match_aborted_reason = Some(String::from_str(reason));
                    },
                    None => {},
                }
            }
            proof {
                assert(member_lobby_record(players0, j as int));
                assert(self.players@[j as int].1@ =~~= aborted_history(
                    players0[j as int].1@,
                    reason@,
                ));
                assert forall|k: int| 0 <= k < j implies (#[trigger] self.players@[k].1)
                    == pit[k].1 by {}
            }
            j = j + 1;
        }

        let ghost base = outbox@.len();
        let ghost outbox0 = outbox@;
        let ghost players1 = self.players@;
        let mut j: usize = 0;
        let mut sent: usize = 0;
        while j < n
            invariant
                self.players@ == players1,
                self.players@.len() == n,
                j <= n,
                leaver < n,
                sent as int == if j <= leaver {
                    j as int
                } else {
                    j as int - 1
                },
                outbox@.len() == base + sent,
                forall|q: int| 0 <= q < base ==> #[trigger] outbox@[q] == outbox0[q],
                forall|k: int|
                    0 <= k < j && k != leaver ==> sends_to(
                        #[trigger] outbox@[base + abort_slot(k, leaver as int)],
                        players1[k].0@,
                        CurrentState::MatchAborted,
                        players1[k].1@,
                    ),
            decreases n - j,
        {
            if j != leaver {
                let h = self.players[j].1.clone();
                push_msg(outbox, &self.players[j].0, CurrentState::MatchAborted, h);
                sent = sent + 1;
            }
            j = j + 1;
        }

        self.stage = Some(Stage::Aborted(Aborted {  }));
        proof {
            assert forall|k: int| 0 <= k < n implies #[trigger] member_lobby_record(
                self.players@,
                k,
            ) by {
                assert(member_lobby_record(players0, k));
            }
            assert forall|k: int| 0 <= k < n implies #[trigger] crate::stage::aborted_member_record(
                self.players@[k].1,
            ) by {
                assert(member_lobby_record(players0, k));
                assert(self.players@[k].1@ == aborted_history(players0[k].1@, reason@));
            }
        }
    }

    /// Consumes one inbound event, in arrival order. A disconnect or quit by
    /// a roster member aborts the whole match and tells the other members; a
    /// quit by anyone else is a plain error; any other action goes to the
    /// live stage. The roster never exceeds four players, and a match past
    /// the lobby always has exactly four (the session invariant is kept).
    pub fn process_event(&mut self, event: &ClientEvent, outbox: &mut Vec<(ClientId, State)>)
        requires
            old(self).wf(),
        ensures
            final(self).wf(),
            old(self).players@.len() <= final(self).players@.len() <= 4,
            forall|j: int|
                0 <= j < old(self).players@.len() ==> final(self).players@[j].0 == old(
                    self,
                ).players@[j].0,
            old(outbox)@.len() <= final(outbox)@.len(),
            forall|q: int| 0 <= q < old(outbox)@.len() ==> final(outbox)@[q] == old(outbox)@[q],
            // A member's disconnect or quit ends the match for everyone: the
            // reason is written into every member's match record and every
            // other member is told; the leaver's request gets no reply.
            forall|i: int|
                0 <= i < old(self).players@.len() && old(self).players@[i].0@ == event.id@ && (
                event.payload is Disconnect || event.payload matches ClientEventPayload::Step(
                    Step::Quit,
                )) ==> {
                    let reason = if event.payload is Disconnect {
                        "Player disconnected."@
                    } else {
                        "Player left."@
                    };
                    &&& final(self).stage == Some(Stage::Aborted(Aborted {  }))
                    &&& final(self).players@.len() == old(self).players@.len()
                    &&& forall|j: int|
                        0 <= j < old(self).players@.len() ==> final(self).players@[j].1@
                            == aborted_history(old(self).players@[j].1@, reason)
                    &&& outbox_extended(
                        old(outbox)@,
                        final(outbox)@,
                        old(self).players@.len() - 1,
                    )
                    &&& forall|j: int|
                        0 <= j < old(self).players@.len() && j != i ==> sends_to(
                            #[trigger] final(outbox)@[old(outbox)@.len() + abort_slot(j, i)],
                            old(self).players@[j].0@,
                            CurrentState::MatchAborted,
                            aborted_history(old(self).players@[j].1@, reason),
                        )
                },
            // A quit from a client that never joined is a plain error; a
            // disconnect of such a client changes nothing.
            (forall|j: int|
                0 <= j < old(self).players@.len() ==> old(self).players@[j].0@ != event.id@)
                ==> {
                &&& (event.payload matches ClientEventPayload::Step(Step::Quit) ==> {
                    &&& *final(self) == *old(self)
                    &&& outbox_extended(old(outbox)@, final(outbox)@, 1)
                    &&& sends_to(
                        final(outbox)@.last(),
                        event.id@,
                        CurrentState::Error,
                        HistoryView {
                            error: Some("Tried to leave without joining."@),
                            ..crate::api::blank_history()
                        },
                    )
                })
                &&& (event.payload is Disconnect ==> *final(self) == *old(self) && final(outbox)@
                    == old(outbox)@)
            },
            // Any other action is decided by the live stage: the new stage,
            // the roster and the appended messages are exactly those of that
            // stage's transition relation on this step, for the caller's
            // roster position.
            event.payload matches ClientEventPayload::Step(s) ==> (!(s is Quit) ==> (old(
                self,
            ).stage matches Some(st) && (final(self).stage matches Some(nx) && forall|
                pi: Option<usize>,
            |
                #[trigger] index_matches(old(self).players@, pi, event.id@) ==> st.step_spec(
                    old(self).players@,
                    final(self).players@,
                    pi,
                    event.id@,
                    s,
                    old(outbox)@,
                    final(outbox)@,
                    nx,
                )))),
    {
        match &event.payload {
            ClientEventPayload::Disconnect => {
                let pi = self.player_index(&event.id);
                match pi {
                    Some(i) => {
                        // An active player vanished: the match cannot go on.
                        self.abort_match(i, "Player disconnected.", outbox);
                    },
                    None => {},
                }
            },
            ClientEventPayload::Step(step) => {
                match step {
                    Step::Quit => {
                        let pi = self.player_index(&event.id);
                        match pi {
                            Some(i) => {
                                // An active player left: the match cannot go
                                // on.
                                self.abort_match(i, "Player left.", outbox);
                            },
                            None => {
                                let h = with_error(
                                    &History::blank(),
                                    "Tried to leave without joining.",
                                );
                                push_msg(outbox, &event.id, CurrentState::Error, h);
                            },
                        }
                    },
                    _ => {
                        let pi = self.player_index(&event.id);
                        let st = match self.stage.take() {
                            Some(st) => st,
                            None => vstd::pervasive::unreached(),
                        };
                        let ghost st0 = st;
                        let next = st.process_step(
                            &mut self.players,
                            pi,
                            &event.id,
                            step,
                            outbox,
                        );
                        self.stage = Some(next);
                        proof {
                            assert forall|pi2: Option<usize>|
                                #[trigger] index_matches(
                                    old(self).players@,
                                    pi2,
                                    event.id@,
                                ) implies st0.step_spec(
                                old(self).players@,
                                self.players@,
                                pi2,
                                event.id@,
                                *step,
                                old(outbox)@,
                                outbox@,
                                next,
                            ) by {
                                crate::stage::lemma_index_matches_unique(
                                    old(self).players@,
                                    event.id@,
                                    pi2,
                                    pi,
                                );
                            }
                        }
                    },
                }
            },
        }
    }
}

/// The roster-size law: a well-formed session never holds more than four
/// players, and any stage past the lobby (the auction, the kitty decision,
/// trick play) governs a roster of exactly four.
pub proof fn lemma_roster_bounds(s: Session)
    requires
        s.wf(),
    ensures
        0 <= s.players@.len() <= 4,
        (s.stage matches Some(st) && (st is Bidding || st is BidWon || st is Playing))
            ==> s.players@.len() == 4,
{
}

} // verus!
