use rust_volleyball::codec::Key;
use rust_volleyball::sim::{
    apply_key, jump_impulse_action, Contact, EndAction, ForceCmd, JumpAction, MatchCore,
    GRAVITY_AFTER, POINT_LIMIT, POINT_RESET, TICK_NS,
};

fn run_one_tick(core: &mut MatchCore) {
    core.add_time(TICK_NS + 1);
    assert!(core.try_begin_tick());
}

#[test]
fn test_new_board_state() {
    let core = MatchCore::new(true);
    assert_eq!(core.points(), (0, 0, false));
    assert!(core.ball_for_1);
    assert!(core.ball_touch);
    assert!(!core.ball_gravity_on);
    assert_eq!(core.enable_gravity_frame, GRAVITY_AFTER);
    assert_eq!(core.frame_counter, 0);
}

#[test]
fn test_tick_accumulator_consumes_whole_ticks() {
    let mut core = MatchCore::new(false);
    core.add_time(TICK_NS);
    assert!(!core.try_begin_tick());
    core.add_time(2 * TICK_NS);
    assert!(core.try_begin_tick());
    assert!(core.try_begin_tick());
    assert!(!core.try_begin_tick());
    assert_eq!(core.frame_counter, 2);
}

#[test]
fn test_repeated_press_is_idempotent() {
    let mut core = MatchCore::new(true);
    core.add_force(false, true);
    let once = core;
    core.add_force(false, true);
    assert_eq!(core, once);
    assert!(core.p1_left);
    assert!(!core.p1_right);
}

#[test]
fn test_push_only_with_zero_force() {
    let mut core = MatchCore::new(true);
    core.add_force(true, false);
    assert_eq!(core.control_decision(false, true), ForceCmd::PushRight);
    assert_eq!(core.control_decision(false, false), ForceCmd::Keep);
    core.reset_force(true, false);
    assert_eq!(core.control_decision(false, true), ForceCmd::Clear);
    assert_eq!(core.control_decision(false, false), ForceCmd::Clear);
}

#[test]
fn test_point_scored_once_per_rally() {
    let mut core = MatchCore::new(true);
    run_one_tick(&mut core);
    // The serving side's attribution is to player one; the ball comes down
    // untouched on player one's (right) side, so player two scores.
    assert!(!core.on_collision(Contact::Ground { ball_left_of_net: false }));
    assert_eq!(core.points(), (0, 1, false));
    assert!(core.points_added);
    assert_eq!(core.reset_frame, core.frame_counter + POINT_RESET);
    // Further rest contacts in the same rally never score again.
    core.on_collision(Contact::Ground { ball_left_of_net: false });
    core.on_collision(Contact::Ground { ball_left_of_net: true });
    assert_eq!(core.points(), (0, 1, false));
}

#[test]
fn test_touch_then_opponent_ground_scores_for_toucher() {
    let mut core = MatchCore::new(true);
    run_one_tick(&mut core);
    // Player two touches the ball last; it comes down on player two's own
    // (left) side, so player one scores.
    assert!(core.on_collision(Contact::PlayerTwo));
    assert!(core.ball_gravity_on);
    core.on_collision(Contact::Ground { ball_left_of_net: true });
    assert_eq!(core.points(), (1, 0, false));
    assert!(core.ball_for_1);
}

#[test]
fn test_ground_contact_after_opponent_touch_flips_attribution() {
    let mut core = MatchCore::new(true);
    run_one_tick(&mut core);
    // Player one touched last and the ball lands on the left: no point,
    // but the attribution flips to the left side's owner.
    core.on_collision(Contact::PlayerOne);
    core.on_collision(Contact::Ground { ball_left_of_net: true });
    assert_eq!(core.points(), (0, 0, false));
    assert!(!core.ball_touch);
}

#[test]
fn test_reset_geometry_and_gravity_window() {
    let mut core = MatchCore::new(true);
    // Play past the first serve's gravity window so its scheduled enable
    // frame lies behind us.
    for _ in 0..200 {
        run_one_tick(&mut core);
        let _ = core.end_tick();
    }
    assert!(core.ball_gravity_on);
    run_one_tick(&mut core);
    core.add_force(false, true);
    core.on_collision(Contact::Ground { ball_left_of_net: false });
    let reset_frame = core.reset_frame;
    assert_eq!(reset_frame, core.frame_counter + POINT_RESET);
    // No reset before the scheduled frame.
    assert_eq!(core.end_tick(), EndAction::Nothing);
    while core.frame_counter < reset_frame - 1 {
        run_one_tick(&mut core);
        assert_eq!(core.end_tick(), EndAction::Nothing);
    }
    run_one_tick(&mut core);
    assert_eq!(core.frame_counter, reset_frame);
    // Exactly at the scheduled frame the board resets; player two just
    // scored, so the next serve belongs to player two's side.
    assert_eq!(core.end_tick(), EndAction::Reset { ball_for_player1: false });
    assert!(!core.points_added);
    assert!(!core.ball_gravity_on);
    assert!(!core.p1_left && !core.p1_right && !core.p2_left && !core.p2_right);
    assert_eq!(core.ball_touch, core.ball_for_1);
    let enable_frame = core.enable_gravity_frame;
    assert_eq!(enable_frame, reset_frame + GRAVITY_AFTER);
    // Gravity stays suppressed until the scheduled enable frame.
    while core.frame_counter < enable_frame - 1 {
        assert!(!core.ball_gravity_on);
        run_one_tick(&mut core);
        assert_eq!(core.end_tick(), EndAction::Nothing);
    }
    assert!(!core.ball_gravity_on);
    run_one_tick(&mut core);
    assert_eq!(core.end_tick(), EndAction::EnableGravity);
    assert!(core.ball_gravity_on);
}

#[test]
fn test_player_touch_restores_gravity_early() {
    let mut core = MatchCore::new(false);
    run_one_tick(&mut core);
    assert!(!core.ball_gravity_on);
    assert!(core.on_collision(Contact::PlayerOne));
    assert!(core.ball_gravity_on);
    assert!(core.ball_touch);
}

#[test]
fn test_game_over_is_terminal() {
    let mut core = MatchCore::new(true);
    run_one_tick(&mut core);
    core.points1 = POINT_LIMIT - 1;
    core.on_collision(Contact::PlayerTwo);
    core.on_collision(Contact::Ground { ball_left_of_net: true });
    assert_eq!(core.points(), (POINT_LIMIT, 0, true));
    let reset_frame = core.reset_frame;
    // No reset was scheduled and the flag never clears.
    for _ in 0..(2 * POINT_RESET) {
        run_one_tick(&mut core);
        let action = core.end_tick();
        assert!(!matches!(action, EndAction::Reset { .. }));
        let (_, _, over) = core.points();
        assert!(over);
    }
    assert_eq!(core.reset_frame, reset_frame);
    assert_eq!(core.points(), (POINT_LIMIT, 0, true));
}

#[test]
fn test_apply_key_routes_edges() {
    let mut core = MatchCore::new(true);
    assert!(!apply_key(&mut core, Key::Left(true), true));
    assert!(core.p1_left);
    assert!(!apply_key(&mut core, Key::Right(true), false));
    assert!(core.p2_right);
    assert!(!apply_key(&mut core, Key::Left(false), true));
    assert!(!core.p1_left);
    assert!(!apply_key(&mut core, Key::Right(false), false));
    assert!(!core.p2_right);
    let before = core;
    assert!(apply_key(&mut core, Key::Jump, true));
    assert_eq!(core, before);
}

#[test]
fn test_jump_impulse_action() {
    assert_eq!(jump_impulse_action(true, false), JumpAction::BallNudge);
    assert_eq!(jump_impulse_action(true, true), JumpAction::BallNudge);
    assert_eq!(jump_impulse_action(false, true), JumpAction::PlayerJump);
    assert_eq!(jump_impulse_action(false, false), JumpAction::NoAction);
}

#[test]
fn test_random_serve_side_is_consistent() {
    let core = MatchCore::new_random();
    assert_eq!(core.ball_touch, core.ball_for_1);
    assert_eq!(core.points(), (0, 0, false));
}
