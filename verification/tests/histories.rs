//! The history record and its helpers.

use five_hundred::api::{with_error, with_excluded, History, LobbyHistory};

#[test]
fn blank_history_says_nothing() {
    let h = History::blank();
    assert!(h.lobby_history.is_none());
    assert!(h.match_history.is_none());
    assert!(h.game_history.is_none());
    assert!(h.excluded_reason.is_none());
    assert!(h.error.is_none());
}

#[test]
fn error_copies_keep_the_rest() {
    let mut h = History::blank();
    h.lobby_history = Some(LobbyHistory {
        player_count: 2,
        your_player_index: 1,
        your_team_index: 1,
    });
    let e = with_error(&h, "no such move");
    assert_eq!(e.error, Some("no such move".to_string()));
    assert_eq!(e.lobby_history, h.lobby_history);
    assert!(e.excluded_reason.is_none());
    // The source history is untouched.
    assert!(h.error.is_none());

    let x = with_excluded(&h, "full table");
    assert_eq!(x.excluded_reason, Some("full table".to_string()));
    assert!(x.error.is_none());
}

#[test]
fn clone_is_deep() {
    let mut h = History::blank();
    h.lobby_history = Some(LobbyHistory {
        player_count: 4,
        your_player_index: 3,
        your_team_index: 1,
    });
    let c = h.clone();
    assert_eq!(c.lobby_history, h.lobby_history);
    assert!(c.match_history.is_none());
}
