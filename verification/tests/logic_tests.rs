use rust_volleyball::logic::{Coordinator, JoinReply, PING_WINDOW_MS};

#[test]
fn test_join_puts_first_player_in_lobby() {
    let mut c = Coordinator::new();
    let r = c.join_with_ids(7, 99, 0);
    assert_eq!(r, JoinReply { player_id: 7, board_id: 99, opponent: None });
    assert_eq!(c.lobby, Some((7, 99)));
    assert_eq!(c.board_members(99), None);
    assert_eq!(c.pop_board(), None);
}

#[test]
fn test_second_join_forms_board_and_clears_lobby() {
    let mut c = Coordinator::new();
    c.join_with_ids(7, 99, 0);
    let r = c.join_with_ids(8, 1234, 5);
    assert_eq!(r, JoinReply { player_id: 8, board_id: 99, opponent: Some(7) });
    assert_eq!(c.lobby, None);
    assert_eq!(c.board_members(99), Some((7, 8)));
    assert_eq!(c.board_members(1234), None);
    assert_eq!(c.pop_board(), Some(99));
    assert_eq!(c.pop_board(), None);
}

#[test]
fn test_join_request_mints_ids() {
    let mut c = Coordinator::new();
    let r1 = c.join_request(0);
    assert_eq!(r1.opponent, None);
    assert_eq!(c.lobby, Some((r1.player_id, r1.board_id)));
    let r2 = c.join_request(0);
    assert_eq!(r2.board_id, r1.board_id);
    assert_eq!(r2.opponent, Some(r1.player_id));
    assert_eq!(c.lobby, None);
    assert_eq!(c.board_members(r1.board_id), Some((r1.player_id, r2.player_id)));
}

#[test]
fn test_route_input_checks_board_and_membership() {
    let mut c = Coordinator::new();
    c.join_with_ids(7, 99, 0);
    c.join_with_ids(8, 0, 0);
    assert_eq!(c.route_input(7, 99), Some(true));
    assert_eq!(c.route_input(8, 99), Some(false));
    assert_eq!(c.route_input(9, 99), None);
    assert_eq!(c.route_input(7, 100), None);
}

#[test]
fn test_ping_refreshes_members_only() {
    let mut c = Coordinator::new();
    c.join_with_ids(7, 99, 0);
    c.join_with_ids(8, 0, 0);
    assert!(c.should_notify(7, PING_WINDOW_MS - 1));
    assert!(!c.should_notify(7, PING_WINDOW_MS));
    c.ping(7, 99, 10_000);
    assert!(c.should_notify(7, 10_000 + PING_WINDOW_MS - 1));
    assert!(!c.should_notify(7, 10_000 + PING_WINDOW_MS));
    // A ping for an unknown board or from a non-member changes nothing.
    c.ping(7, 100, 50_000);
    c.ping(9, 99, 50_000);
    assert!(!c.should_notify(7, 50_000 + 1));
    assert!(!c.should_notify(9, 50_000 + 1));
}

#[test]
fn test_unknown_player_never_notified() {
    let c = Coordinator::new();
    assert!(!c.should_notify(7, 0));
}

#[test]
fn test_disconnect_clears_only_the_waiting_player() {
    let mut c = Coordinator::new();
    c.join_with_ids(7, 99, 0);
    c.disconnect(8);
    assert_eq!(c.lobby, Some((7, 99)));
    c.disconnect(7);
    assert_eq!(c.lobby, None);
    c.disconnect(7);
    assert_eq!(c.lobby, None);
}

#[test]
fn test_remove_board_discards_one_session() {
    let mut c = Coordinator::new();
    c.join_with_ids(1, 10, 0);
    c.join_with_ids(2, 0, 0);
    c.join_with_ids(3, 20, 0);
    c.join_with_ids(4, 0, 0);
    c.remove_board(10);
    assert_eq!(c.board_members(10), None);
    assert_eq!(c.board_members(20), Some((3, 4)));
    // The stale queue entry pops to a board that no longer exists.
    assert_eq!(c.pop_board(), Some(10));
    c.remove_board(10);
    assert_eq!(c.board_members(20), Some((3, 4)));
}

#[test]
fn test_update_queue_rotates_in_order() {
    let mut c = Coordinator::new();
    c.join_with_ids(1, 10, 0);
    c.join_with_ids(2, 0, 0);
    c.join_with_ids(3, 20, 0);
    c.join_with_ids(4, 0, 0);
    assert_eq!(c.pop_board(), Some(10));
    c.push_board(10);
    assert_eq!(c.pop_board(), Some(20));
    assert_eq!(c.pop_board(), Some(10));
    assert_eq!(c.pop_board(), None);
}
