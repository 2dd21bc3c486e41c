//! The stage in which clients wait to join a new match.

use crate::api::{
    outbox_extended, push_msg, sends_to, with_excluded, ClientId, CurrentState, History,
    HistoryView, LobbyHistory, MatchHistory, MatchHistoryView, State, Step,
};
use crate::bidding::{available_bids_spec, dealt_history, Bidding};
use crate::stage::{index_matches, member_lobby_record, roster_wf, process_bad_step, Stage};
use vstd::prelude::*;

verus! {

/// The lobby, waiting for the roster to fill.
#[derive(Clone, Copy, Debug)]
pub struct Lobby {
    /// How many games have gone before; picks the first bidder of the next
    /// game.
    pub game_index: usize,
}

impl Lobby {
    pub fn new(game_index: usize) -> (l: Lobby)
        ensures
            l.game_index == game_index,
    {
        Lobby { game_index }
    }
}

/// What one step in the lobby does, case by case: a fresh join grows the
/// roster and tells everyone (the fourth join dealing a new game), a repeat
/// join is excluded, and anything else is rejected with the state unchanged.
pub open spec fn lobby_step_spec(
    st: Lobby,
    players0: Seq<(ClientId, History)>,
    players1: Seq<(ClientId, History)>,
    player_index: Option<usize>,
    id: Seq<char>,
    step: Step,
    outbox0: Seq<(ClientId, State)>,
    outbox1: Seq<(ClientId, State)>,
    next: Stage,
) -> bool {
    // A member asking to join again is excluded; nothing changes.
    &&& (step is Join ==> (player_index matches Some(i) ==> {
                &&& players1 == players0
                &&& next == Stage::Lobby(st)
                &&& outbox_extended(outbox0, outbox1, 1)
                &&& sends_to(
                    outbox1.last(),
                    id,
                    CurrentState::Excluded,
                    HistoryView {
                        excluded_reason: Some("Already joined."@),
                        ..players0[i as int].1@
                    },
                )
    }))
    // A fresh join appends a roster entry, renumbers nobody, bumps
    // every member's player count, and tells everyone.
    &&& (step is Join && player_index is None ==> {
                let n = players0.len();
                &&& players1.len() == n + 1
                &&& players1[n as int].0@ == id
                &&& forall|j: int|
                    0 <= j < n ==> sends_to(
                        #[trigger] outbox1[outbox0.len() + j],
                        players0[j].0@,
                        CurrentState::PlayerJoined,
                        HistoryView {
                            lobby_history: Some(
                                LobbyHistory {
                                    player_count: (n + 1) as usize,
                                    your_player_index: j as usize,
                                    your_team_index: (j % 2) as usize,
                                },
                            ),
                            ..players0[j].1@
                        },
                    )
                &&& sends_to(
                    outbox1[outbox0.len() + n as int],
                    id,
                    CurrentState::PlayerJoined,
                    joined_history(n + 1 as int, n as int),
                )
                &&& (n + 1 < 4 ==> {
                    &&& next == Stage::Lobby(st)
                    &&& outbox_extended(outbox0, outbox1, n + 1 as int)
                    &&& players1[n as int].1@ == joined_history(n + 1 as int, n as int)
                    &&& forall|j: int|
                        0 <= j < n ==> players1[j].1@ == (HistoryView {
                            lobby_history: Some(
                                LobbyHistory {
                                    player_count: (n + 1) as usize,
                                    your_player_index: j as usize,
                                    your_team_index: (j % 2) as usize,
                                },
                            ),
                            ..players0[j].1@
                        })
                })
                &&& (n + 1 == 4 ==> (next matches Stage::Bidding(b) && {
                    &&& b.wf(players1)
                    &&& b.first_bidder_index == st.game_index % 4
                    &&& b.current_bidder_index == b.first_bidder_index
                    &&& b.highest_bid is None
                    &&& forall|j: int| 0 <= j < 4 ==> b.prev_bids@[j] is None
                    &&& ({
                        let h = players1[b.first_bidder_index as int].1;
                        h.game_history->0.bidding_history->0.bid_options matches Some(o)
                            && available_bids_spec(
                            b.prev_bids@,
                            None,
                            b.first_bidder_index as int,
                            o@,
                        ) && h@ == dealt_history(
                            Some(
                                LobbyHistory {
                                    player_count: 4,
                                    your_player_index: b.first_bidder_index,
                                    your_team_index: b.first_bidder_index % 2,
                                },
                            ),
                            b.hands@[b.first_bidder_index as int]@,
                            b.first_bidder_index,
                            Some(o@),
                        )
                    })
                    &&& outbox_extended(outbox0, outbox1, 12)
                    &&& forall|j: int|
                        0 <= j < 4 ==> sends_to(
                            #[trigger] outbox1[outbox0.len() + 4 + 2 * j],
                            players1[j].0@,
                            CurrentState::HandDealt,
                            dealt_history(
                                Some(
                                    LobbyHistory {
                                        player_count: 4,
                                        your_player_index: j as usize,
                                        your_team_index: (j % 2) as usize,
                                    },
                                ),
                                b.hands@[j]@,
                                b.first_bidder_index,
                                None,
                            ),
                        )
                    &&& forall|j: int|
                        0 <= j < 4 ==> sends_to(
                            #[trigger] outbox1[outbox0.len() + 4 + 2 * j + 1],
                            players1[j].0@,
                            if j == b.first_bidder_index {
                                CurrentState::WaitingForYourBid
                            } else {
                                CurrentState::WaitingForTheirBid
                            },
                            players1[j].1@,
                        )
                }))
    })
    // Any other action is rejected, the stage and roster unchanged.
    &&& (!(step is Join) ==> {
                &&& players1 == players0
                &&& next == Stage::Lobby(st)
                &&& outbox_extended(outbox0, outbox1, 1)
                &&& (player_index matches Some(i) ==> sends_to(
                    outbox1.last(),
                    id,
                    CurrentState::Error,
                    HistoryView {
                        error: Some("Invalid step in the lobby."@),
                        ..players0[i as int].1@
                    },
                ))
                &&& (player_index is None ==> sends_to(
                    outbox1.last(),
                    id,
                    CurrentState::Excluded,
                    HistoryView {
                        excluded_reason: Some("You are not a player in this game."@),
                        ..crate::api::blank_history()
                    },
                ))
    })
}

impl Lobby {
    /// Admits joining clients until the roster holds four players, then
    /// starts the match. A client that already joined is excluded; any other
    /// action is rejected without changing the roster.
    pub fn process_step(
        self,
        players: &mut Vec<(ClientId, History)>,
        player_index: Option<usize>,
        client_id: &ClientId,
        step: &Step,
        outbox: &mut Vec<(ClientId, State)>,
    ) -> (next: Stage)
        requires
            roster_wf(old(players)@),
            old(players)@.len() < 4,
            index_matches(old(players)@, player_index, client_id@),
        ensures
            roster_wf(final(players)@),
            next.wf(final(players)@),
            forall|j: int|
                0 <= j < old(players)@.len() ==> final(players)@[j].0 == old(players)@[j].0,
            lobby_step_spec(
                self,
                old(players)@,
                final(players)@,
                player_index,
                client_id@,
                *step,
                old(outbox)@,
                final(outbox)@,
                next,
            ),
    {
        match step {
            Step::Join(_) => {
                match player_index {
                    Some(i) => {
                        // Already in the roster.
                        let h = with_excluded(&players[i].1, "Already joined.");
                        push_msg(outbox, client_id, CurrentState::Excluded, h);
                        Stage::Lobby(self)
                    },
                    None => {
                        let n = players.len();
                        // The new entry starts with the roster size before
                        // this join; the bump below brings everyone, the
                        // newcomer included, up to date.
                        players.push(
                            (
                                client_id.clone(),
                                History {
                                    lobby_history: Some(
                                        LobbyHistory {
                                            player_count: n,
                                            your_player_index: n,
                                            your_team_index: n % 2,
                                        },
                                    ),
                                    match_history: Some(
                                        MatchHistory {
                                            past_games: Vec::new(),
                                            winning_team_index: None,
                                            match_aborted_reason: None,
                                        },
                                    ),
                                    game_history: None,
                                    excluded_reason: None,
                                    error: None,
                                },
                            ),
                        );
                        let ghost players1 = players@;
                        let ghost base = outbox@.len();
                        let ghost outbox0 = outbox@;
                        proof {
                            assert forall|k: int| 0 <= k < n implies (#[trigger] players1[k].1)
                                .lobby_history == Some(
                                LobbyHistory {
                                    player_count: n as usize,
                                    your_player_index: k as usize,
                                    your_team_index: (k % 2) as usize,
                                },
                            ) && players1[k].1.match_history is Some && players1[k].1.error
                                is None && players1[k].1.excluded_reason is None by {
                                assert(member_lobby_record(old(players)@, k));
                                assert(players1[k] == old(players)@[k]);
                            }
                            assert(players1[n as int].1@ =~~= (HistoryView {
                                lobby_history: Some(
                                    LobbyHistory {
                                        player_count: n as usize,
                                        your_player_index: n as usize,
                                        your_team_index: (n % 2) as usize,
                                    },
                                ),
                                ..joined_history(n as int, n as int)
                            }));
                        }

                        let mut j: usize = 0;
                        while j < players.len()
                            invariant
                                players@.len() == n + 1,
                                n < 4,
                                players1.len() == n + 1,
                                j <= n + 1,
                                forall|k: int|
                                    0 <= k < n + 1 ==> #[trigger] players@[k].0 == players1[k].0,
                                forall|k: int|
                                    j <= k < n + 1 ==> #[trigger] players@[k].1 == players1[k].1,
                                forall|k: int|
                                    0 <= k < n ==> (#[trigger] players1[k].1).lobby_history
                                        == Some(
                                        LobbyHistory {
                                            player_count: n as usize,
                                            your_player_index: k as usize,
                                            your_team_index: (k % 2) as usize,
                                        },
                                    ) && players1[k].1.match_history is Some
                                        && players1[k].1.error is None
                                        && players1[k].1.excluded_reason is None,
                                players1[n as int].1.lobby_history == Some(
                                    LobbyHistory {
                                        player_count: n as usize,
                                        your_player_index: n as usize,
                                        your_team_index: (n % 2) as usize,
                                    },
                                ),
                                players1[n as int].1.match_history is Some,
                                players1[n as int].1.error is None,
                                players1[n as int].1.excluded_reason is None,
                                players1[n as int].1@ == (HistoryView {
                                    lobby_history: Some(
                                        LobbyHistory {
                                            player_count: n as usize,
                                            your_player_index: n as usize,
                                            your_team_index: (n % 2) as usize,
                                        },
                                    ),
                                    ..joined_history(n as int, n as int)
                                }),
                                forall|k: int|
                                    0 <= k < j ==> (#[trigger] players@[k].1)@ == (HistoryView {
                                        lobby_history: Some(
                                            LobbyHistory {
                                                player_count: (n + 1) as usize,
                                                your_player_index: k as usize,
                                                your_team_index: (k % 2) as usize,
                                            },
                                        ),
                                        ..players1[k].1@
                                    }),
                                forall|k: int|
                                    0 <= k < j ==> (#[trigger] players@[k].1).match_history
                                        is Some && players@[k].1.error is None
                                        && players@[k].1.excluded_reason is None,
                                outbox@.len() == base + j,
                                forall|i: int| 0 <= i < base ==> #[trigger] outbox@[i]
                                    == outbox0[i],
                                forall|k: int|
                                    0 <= k < j ==> sends_to(
                                        #[trigger] outbox@[base + k],
                                        players@[k].0@,
                                        CurrentState::PlayerJoined,
                                        players@[k].1@,
                                    ),
                            decreases players@.len() - j,
                        {
                            let ghost pit = players@;
                            {
                                let entry = &mut players[j];
                                match &mut entry.1.lobby_history {
                                    Some(lh) => {
                                        lh.player_count = lh.player_count + 1;
                                    },
                                    None => {},
                                }
                            }
                            let h = players[j].1.clone();
                            push_msg(outbox, &players[j].0, CurrentState::PlayerJoined, h);
                            proof {
                                assert(players@[j as int].1@ =~~= (HistoryView {
                                    lobby_history: Some(
                                        LobbyHistory {
                                            player_count: (n + 1) as usize,
                                            your_player_index: j as usize,
                                            your_team_index: (j as int % 2) as usize,
                                        },
                                    ),
                                    ..players1[j as int].1@
                                }));
                                assert forall|k: int| 0 <= k < j implies (#[trigger] players@[k].1)
                                    == pit[k].1 by {}
                            }
                            j = j + 1;
                        }
                        proof {
                            assert forall|k: int| 0 <= k < n + 1 implies
                                #[trigger] member_lobby_record(players@, k) by {}
                            assert(players@[n as int].1@ =~~= joined_history(
                                n + 1 as int,
                                n as int,
                            ));
                        }
                        if players.len() == 4 {
                            let b = Bidding::new(players, outbox, self.game_index % 4);
                            Stage::Bidding(b)
                        } else {
                            Stage::Lobby(self)
                        }
                    },
                }
            },
            _ => {
                match player_index {
                    Some(i) => {
                        process_bad_step(players, i, client_id, "Invalid step in the lobby.", outbox);
                        Stage::Lobby(self)
                    },
                    None => {
                        let h = with_excluded(
                            &History::blank(),
                            "You are not a player in this game.",
                        );
                        push_msg(outbox, client_id, CurrentState::Excluded, h);
                        Stage::Lobby(self)
                    },
                }
            },
        }
    }
}

/// The history a freshly joined player starts from: a lobby record for the
/// given position and roster size, and an otherwise empty match record.
pub open spec fn joined_history(count: int, position: int) -> HistoryView {
    HistoryView {
        lobby_history: Some(
            LobbyHistory {
                player_count: count as usize,
                your_player_index: position as usize,
                your_team_index: (position % 2) as usize,
            },
        ),
        match_history: Some(
            MatchHistoryView {
                past_games: Seq::empty(),
                winning_team_index: None,
                match_aborted_reason: None,
            },
        ),
        game_history: None,
        excluded_reason: None,
        error: None,
    }
}

} // verus!
