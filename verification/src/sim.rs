//! Per-match simulation core: the discrete rules of one volleyball board.
//!
//! The physics engine integrates bodies and reports collisions; everything
//! the match *decides* lives here as plain values: the fixed-tick time
//! accumulator, the held-input table, the scoring state machine of a rally,
//! the scheduled positional reset after a point, and the delayed restore of
//! the ball's gravity. The embedding application drives one tick as: begin
//! the tick, apply the horizontal-force commands, step the physics engine,
//! feed every collision event back in, and finish the tick, performing the
//! returned action on its physics world.

use vstd::prelude::*;
use crate::codec::Key;
use crate::rng::random_bool;

verus! {

/// Nanoseconds in one fixed simulation tick (1/60 s).
pub const TICK_NS: u64 = 16_666_667;

/// A match ends the instant either side reaches this many points.
pub const POINT_LIMIT: u32 = 10;

/// Frames between a scored point and the scheduled positional reset.
pub const POINT_RESET: u64 = 180;

/// Frames between a positional reset and the ball's gravity being restored.
pub const GRAVITY_AFTER: u64 = 180;

/// Hard cap on the frame counter; at 60 frames a second it lies billions of
/// years out, and stopping there keeps every schedule computation in range.
pub const FRAME_CAP: u64 = 0xffff_ffff_ffff_0000;

/// One collision reported by the physics engine for the ball's collider,
/// classified by what the ball hit. For a ground contact the application
/// also reports on which side of the net the ball came down.
#[derive(Debug, PartialEq, Eq, Structural, Clone, Copy)]
pub enum Contact {
    PlayerOne,
    PlayerTwo,
    Ground { ball_left_of_net: bool },
    Other,
}

/// What the application must do to a player body at the start of a tick.
#[derive(Debug, PartialEq, Eq, Structural, Clone, Copy)]
pub enum ForceCmd {
    PushRight,
    PushLeft,
    Clear,
    Keep,
}

/// What the application must do to its physics world when a tick ends:
/// teleport players and ball to their fixed start coordinates with zero
/// velocity and the ball's gravity suppressed, or restore the ball's
/// gravity and nudge it downward into play.
#[derive(Debug, PartialEq, Eq, Structural, Clone, Copy)]
pub enum EndAction {
    Reset { ball_for_player1: bool },
    EnableGravity,
    Nothing,
}

/// The response to a jump request: hop the requesting player (only when the
/// player stands on the ground) or, for a strong request, nudge the ball.
#[derive(Debug, PartialEq, Eq, Structural, Clone, Copy)]
pub enum JumpAction {
    PlayerJump,
    BallNudge,
    NoAction,
}

/// The discrete state of one board.
///
/// `ball_touch` records who touched the ball last (`true` = first player);
/// it starts as the serving side. `ball_for_1` is the side the next serve
/// belongs to. `ball_gravity_on` mirrors whether the ball's gravity is
/// currently active in the physics world: the core decides every change to
/// it, and the application applies each decision as it is returned.
#[derive(Debug, PartialEq, Eq, Structural, Clone, Copy)]
pub struct MatchCore {
    pub frame_counter: u64,
    pub acc_time_ns: u64,
    pub points1: u32,
    pub points2: u32,
    pub points_added: bool,
    pub ball_for_1: bool,
    pub ball_touch: bool,
    pub reset_frame: u64,
    pub enable_gravity_frame: u64,
    pub game_over: bool,
    pub p1_left: bool,
    pub p1_right: bool,
    pub p2_left: bool,
    pub p2_right: bool,
    pub ball_gravity_on: bool,
}

impl MatchCore {
    /// Well-formedness: the frame counter is capped, the scores never pass
    /// the point limit, the game-over flag holds exactly when a score has
    /// reached the limit, and a finished game always has its final point
    /// marked as awarded.
    pub open spec fn inv(self) -> bool {
        &&& self.frame_counter <= FRAME_CAP
        &&& self.points1 <= POINT_LIMIT
        &&& self.points2 <= POINT_LIMIT
        &&& self.game_over == (self.points1 == POINT_LIMIT || self.points2 == POINT_LIMIT)
        &&& self.game_over ==> self.points_added
    }

    /// The state of a fresh board: zero scores, the serve attributed to the
    /// randomly chosen starting side, gravity suppressed until the first
    /// scheduled enable frame, no held inputs.
    pub open spec fn spec_new(ball_for_player1: bool) -> MatchCore {
        MatchCore {
            frame_counter: 0,
            acc_time_ns: 0,
            points1: 0,
            points2: 0,
            points_added: false,
            ball_for_1: ball_for_player1,
            ball_touch: ball_for_player1,
            reset_frame: 0,
            enable_gravity_frame: GRAVITY_AFTER,
            game_over: false,
            p1_left: false,
            p1_right: false,
            p2_left: false,
            p2_right: false,
            ball_gravity_on: false,
        }
    }

    /// Create a board whose first serve belongs to the given side.
    pub fn new(ball_for_player1: bool) -> (r: MatchCore)
        ensures
            r == MatchCore::spec_new(ball_for_player1),
            r.inv(),
    {
        MatchCore {
            frame_counter: 0,
            acc_time_ns: 0,
            points1: 0,
            points2: 0,
            points_added: false,
            ball_for_1: ball_for_player1,
            ball_touch: ball_for_player1,
            reset_frame: 0,
            enable_gravity_frame: GRAVITY_AFTER,
            game_over: false,
            p1_left: false,
            p1_right: false,
            p2_left: false,
            p2_right: false,
            ball_gravity_on: false,
        }
    }

    /// Accumulating real time, saturating at the counter's limit.
    pub open spec fn spec_add_time(s: MatchCore, delta_ns: u64) -> MatchCore {
        MatchCore {
            acc_time_ns: if s.acc_time_ns + delta_ns <= u64::MAX {
                (s.acc_time_ns + delta_ns) as u64
            } else {
                u64::MAX
            },
            ..s
        }
    }

    /// Add a real-time delta to the accumulator; whole ticks are consumed
    /// from it one by one by `try_begin_tick`.
    pub fn add_time(&mut self, delta_ns: u64)
        requires
            old(self).inv(),
        ensures
            *final(self) == MatchCore::spec_add_time(*old(self), delta_ns),
            final(self).inv(),
    {
        self.acc_time_ns = if delta_ns <= u64::MAX - self.acc_time_ns {
            self.acc_time_ns + delta_ns
        } else {
            u64::MAX
        };
    }

    /// Whether a tick begins, and the state after it does: one tick's worth
    /// of time is consumed and the frame counter advances.
    pub open spec fn spec_begin_tick(s: MatchCore) -> (MatchCore, bool) {
        if s.acc_time_ns > TICK_NS && s.frame_counter < FRAME_CAP {
            (
                MatchCore {
                    acc_time_ns: (s.acc_time_ns - TICK_NS) as u64,
                    frame_counter: (s.frame_counter + 1) as u64,
                    ..s
                },
                true,
            )
        } else {
            (s, false)
        }
    }

    /// Start the next fixed tick if more than one tick of time has
    /// accumulated; returns whether a tick began, so the caller knows
    /// whether to step the physics world and emit a fresh snapshot.
    pub fn try_begin_tick(&mut self) -> (ticked: bool)
        requires
            old(self).inv(),
        ensures
            *final(self) == MatchCore::spec_begin_tick(*old(self)).0,
            ticked == MatchCore::spec_begin_tick(*old(self)).1,
            final(self).inv(),
    {
        if self.acc_time_ns > TICK_NS && self.frame_counter < FRAME_CAP {
            self.acc_time_ns = self.acc_time_ns - TICK_NS;
            self.frame_counter = self.frame_counter + 1;
            true
        } else {
            false
        }
    }

    /// The held left/right inputs of one player.
    pub open spec fn spec_inputs(s: MatchCore, is_player1: bool) -> (bool, bool) {
        if is_player1 {
            (s.p1_left, s.p1_right)
        } else {
            (s.p2_left, s.p2_right)
        }
    }

    /// A key-press edge: mark the pressed direction held, leaving the other
    /// direction as it was.
    pub open spec fn spec_add_force(s: MatchCore, right_force: bool, is_player1: bool) -> MatchCore {
        if is_player1 {
            if right_force {
                MatchCore { p1_right: true, ..s }
            } else {
                MatchCore { p1_left: true, ..s }
            }
        } else {
            if right_force {
                MatchCore { p2_right: true, ..s }
            } else {
                MatchCore { p2_left: true, ..s }
            }
        }
    }

    /// Record a key-press edge for one player.
    pub fn add_force(&mut self, right_force: bool, is_player1: bool)
        requires
            old(self).inv(),
        ensures
            *final(self) == MatchCore::spec_add_force(*old(self), right_force, is_player1),
            final(self).inv(),
    {
        if is_player1 {
            if right_force {
                self.p1_right = true;
            } else {
                self.p1_left = true;
            }
        } else {
            if right_force {
                self.p2_right = true;
            } else {
                self.p2_left = true;
            }
        }
    }

    /// A key-release edge: mark the released direction no longer held.
    pub open spec fn spec_reset_force(s: MatchCore, right_force: bool, is_player1: bool) -> MatchCore {
        if is_player1 {
            if right_force {
                MatchCore { p1_right: false, ..s }
            } else {
                MatchCore { p1_left: false, ..s }
            }
        } else {
            if right_force {
                MatchCore { p2_right: false, ..s }
            } else {
                MatchCore { p2_left: false, ..s }
            }
        }
    }

    /// Record a key-release edge for one player.
    pub fn reset_force(&mut self, right_force: bool, is_player1: bool)
        requires
            old(self).inv(),
        ensures
            *final(self) == MatchCore::spec_reset_force(*old(self), right_force, is_player1),
            final(self).inv(),
    {
        if is_player1 {
            if right_force {
                self.p1_right = false;
            } else {
                self.p1_left = false;
            }
        } else {
            if right_force {
                self.p2_right = false;
            } else {
                self.p2_left = false;
            }
        }
    }

    /// The per-tick horizontal command for one player: push in a held
    /// direction only while the body carries no user force (the guard that
    /// keeps a repeated press from doubling the force), and clear residual
    /// force when neither direction is held.
    pub open spec fn spec_control(s: MatchCore, is_player1: bool, force_is_zero: bool) -> ForceCmd {
        let (left, right) = MatchCore::spec_inputs(s, is_player1);
        if right && force_is_zero {
            ForceCmd::PushRight
        } else if left && force_is_zero {
            ForceCmd::PushLeft
        } else if !left && !right {
            ForceCmd::Clear
        } else {
            ForceCmd::Keep
        }
    }

    /// Decide the horizontal command for one player at the start of a tick;
    /// `force_is_zero` reports whether the body's user force is currently
    /// exactly zero. A push is only ever commanded while it is.
    pub fn control_decision(&self, is_player1: bool, force_is_zero: bool) -> (cmd: ForceCmd)
        ensures
            cmd == MatchCore::spec_control(*self, is_player1, force_is_zero),
            cmd == ForceCmd::PushRight || cmd == ForceCmd::PushLeft ==> force_is_zero,
    {
        let (left, right) = if is_player1 {
            (self.p1_left, self.p1_right)
        } else {
            (self.p2_left, self.p2_right)
        };
        if right && force_is_zero {
            ForceCmd::PushRight
        } else if left && force_is_zero {
            ForceCmd::PushLeft
        } else if !left && !right {
            ForceCmd::Clear
        } else {
            ForceCmd::Keep
        }
    }

    /// The scoring state machine's answer to one collision event.
    ///
    /// A player contact records that player as the last toucher and restores
    /// the ball's gravity. A ground contact while no point is pending
    /// applies the house rule: if the side the ball came down on is the side
    /// that touched it last, its opponent scores, the next serve goes to the
    /// scorer's side, and (unless the game just ended) a positional reset is
    /// scheduled; otherwise no point is awarded and the last-toucher flag
    /// flips to the landing side's owner, suppressing repeated awards from
    /// the same rest contact.
    pub open spec fn spec_on_event(s: MatchCore, c: Contact) -> MatchCore {
        match c {
            Contact::PlayerOne => MatchCore { ball_touch: true, ball_gravity_on: true, ..s },
            Contact::PlayerTwo => MatchCore { ball_touch: false, ball_gravity_on: true, ..s },
            Contact::Ground { ball_left_of_net } => {
                if s.points_added {
                    s
                } else if ball_left_of_net {
                    if !s.ball_touch {
                        let new_points = (s.points1 + 1) as u32;
                        let over = new_points >= POINT_LIMIT || s.points2 >= POINT_LIMIT;
                        MatchCore {
                            points1: new_points,
                            ball_for_1: true,
                            points_added: true,
                            game_over: over,
                            reset_frame: if !over {
                                (s.frame_counter + POINT_RESET) as u64
                            } else {
                                s.reset_frame
                            },
                            ..s
                        }
                    } else {
                        MatchCore { ball_touch: false, ..s }
                    }
                } else {
                    if s.ball_touch {
                        let new_points = (s.points2 + 1) as u32;
                        let over = s.points1 >= POINT_LIMIT || new_points >= POINT_LIMIT;
                        MatchCore {
                            points2: new_points,
                            ball_for_1: false,
                            points_added: true,
                            game_over: over,
                            reset_frame: if !over {
                                (s.frame_counter + POINT_RESET) as u64
                            } else {
                                s.reset_frame
                            },
                            ..s
                        }
                    } else {
                        MatchCore { ball_touch: true, ..s }
                    }
                }
            },
            Contact::Other => s,
        }
    }

    /// Feed one collision event into the scoring state machine; returns
    /// whether the ball's gravity must be restored right now (it must be
    /// exactly when a player touched the ball).
    pub fn on_collision(&mut self, c: Contact) -> (gravity_restored: bool)
        requires
            old(self).inv(),
        ensures
            *final(self) == MatchCore::spec_on_event(*old(self), c),
            gravity_restored == (c == Contact::PlayerOne || c == Contact::PlayerTwo),
            final(self).inv(),
    {
        match c {
            Contact::PlayerOne => {
                self.ball_touch = true;
                self.ball_gravity_on = true;
                true
            },
            Contact::PlayerTwo => {
                self.ball_touch = false;
                self.ball_gravity_on = true;
                true
            },
            Contact::Ground { ball_left_of_net } => {
                if !self.points_added {
                    if ball_left_of_net {
                        if !self.ball_touch {
                            self.points1 = self.points1 + 1;
                            self.ball_for_1 = true;
                            self.points_added = true;
                            self.game_over = self.points1 >= POINT_LIMIT || self.points2
                                >= POINT_LIMIT;
                            if !self.game_over {
                                self.reset_frame = self.frame_counter + POINT_RESET;
                            }
                        } else {
                            self.ball_touch = false;
                        }
                    } else {
                        if self.ball_touch {
                            self.points2 = self.points2 + 1;
                            self.ball_for_1 = false;
                            self.points_added = true;
                            self.game_over = self.points1 >= POINT_LIMIT || self.points2
                                >= POINT_LIMIT;
                            if !self.game_over {
                                self.reset_frame = self.frame_counter + POINT_RESET;
                            }
                        } else {
                            self.ball_touch = true;
                        }
                    }
                }
                false
            },
            Contact::Other => false,
        }
    }

    /// What ends a tick: exactly at the scheduled reset frame of a pending
    /// point in a running game, positions reset, held inputs clear, the
    /// serve attribution returns to the serving side, the ball's gravity is
    /// suppressed, and its restore is scheduled; exactly at the scheduled
    /// gravity frame, the ball's gravity returns with a downward nudge.
    pub open spec fn spec_end_tick(s: MatchCore) -> (MatchCore, EndAction) {
        if s.frame_counter == s.reset_frame && s.points_added && !s.game_over {
            (
                MatchCore {
                    points_added: false,
                    ball_touch: s.ball_for_1,
                    p1_left: false,
                    p1_right: false,
                    p2_left: false,
                    p2_right: false,
                    ball_gravity_on: false,
                    enable_gravity_frame: (s.frame_counter + GRAVITY_AFTER) as u64,
                    ..s
                },
                EndAction::Reset { ball_for_player1: s.ball_for_1 },
            )
        } else if s.frame_counter == s.enable_gravity_frame {
            (MatchCore { ball_gravity_on: true, ..s }, EndAction::EnableGravity)
        } else {
            (s, EndAction::Nothing)
        }
    }

    /// Close the current tick after all collision events were fed in, and
    /// say what the application must do to its physics world.
    pub fn end_tick(&mut self) -> (action: EndAction)
        requires
            old(self).inv(),
        ensures
            *final(self) == MatchCore::spec_end_tick(*old(self)).0,
            action == MatchCore::spec_end_tick(*old(self)).1,
            final(self).inv(),
    {
        if self.frame_counter == self.reset_frame && self.points_added && !self.game_over {
            self.points_added = false;
            self.ball_touch = self.ball_for_1;
            self.p1_left = false;
            self.p1_right = false;
            self.p2_left = false;
            self.p2_right = false;
            self.ball_gravity_on = false;
            self.enable_gravity_frame = self.frame_counter + GRAVITY_AFTER;
            EndAction::Reset { ball_for_player1: self.ball_for_1 }
        } else if self.frame_counter == self.enable_gravity_frame {
            self.ball_gravity_on = true;
            EndAction::EnableGravity
        } else {
            EndAction::Nothing
        }
    }

    /// Both scores and the game-over flag, as a snapshot reports them.
    pub fn points(&self) -> (r: (u32, u32, bool))
        ensures
            r == (self.points1, self.points2, self.game_over),
    {
        (self.points1, self.points2, self.game_over)
    }
}

/// Decide the response to a jump request: a strong request always nudges
/// the ball; an ordinary one hops the player only while the player's
/// collider touches the ground.
pub fn jump_impulse_action(is_strong: bool, on_ground: bool) -> (a: JumpAction)
    ensures
        is_strong ==> a == JumpAction::BallNudge,
        !is_strong && on_ground ==> a == JumpAction::PlayerJump,
        !is_strong && !on_ground ==> a == JumpAction::NoAction,
{
    if is_strong {
        JumpAction::BallNudge
    } else if on_ground {
        JumpAction::PlayerJump
    } else {
        JumpAction::NoAction
    }
}

impl MatchCore {
    /// Create a board whose first serve side is drawn at random.
    pub fn new_random() -> (r: MatchCore)
        ensures
            r == MatchCore::spec_new(r.ball_for_1),
            r.inv(),
    {
        MatchCore::new(random_bool())
    }
}

/// The held-input change a key edge causes: a press marks its direction
/// held, a release clears it, and a jump leaves the table alone.
pub open spec fn spec_apply_key(s: MatchCore, key: Key, is_player1: bool) -> MatchCore {
    match key {
        Key::Left(true) => MatchCore::spec_add_force(s, false, is_player1),
        Key::Left(false) => MatchCore::spec_reset_force(s, false, is_player1),
        Key::Right(true) => MatchCore::spec_add_force(s, true, is_player1),
        Key::Right(false) => MatchCore::spec_reset_force(s, true, is_player1),
        Key::Jump => s,
    }
}

/// Route one key edge to a board: directional edges update the held-input
/// table; a jump is reported back so the caller can test ground contact and
/// apply the impulse.
pub fn apply_key(core: &mut MatchCore, key: Key, is_player1: bool) -> (jump: bool)
    requires
        old(core).inv(),
    ensures
        *final(core) == spec_apply_key(*old(core), key, is_player1),
        jump == (key == Key::Jump),
        final(core).inv(),
{
    match key {
        Key::Left(true) => {
            core.add_force(false, is_player1);
            false
        },
        Key::Left(false) => {
            core.reset_force(false, is_player1);
            false
        },
        Key::Right(true) => {
            core.add_force(true, is_player1);
            false
        },
        Key::Right(false) => {
            core.reset_force(true, is_player1);
            false
        },
        Key::Jump => true,
    }
}

/// One externally driven step in a board's life, as the application's tick
/// loop performs them: accumulate time, begin a tick, report a collision
/// event, or close a tick.
#[derive(Debug, PartialEq, Eq, Structural, Clone, Copy)]
pub enum SimStep {
    Time(u64),
    BeginTick,
    Event(Contact),
    EndTick,
}

/// The state transition of one step.
pub open spec fn spec_step(s: MatchCore, step: SimStep) -> MatchCore {
    match step {
        SimStep::Time(d) => MatchCore::spec_add_time(s, d),
        SimStep::BeginTick => MatchCore::spec_begin_tick(s).0,
        SimStep::Event(c) => MatchCore::spec_on_event(s, c),
        SimStep::EndTick => MatchCore::spec_end_tick(s).0,
    }
}

/// The state after a whole sequence of steps.
pub open spec fn spec_run(s: MatchCore, tr: Seq<SimStep>) -> MatchCore
    decreases tr.len(),
{
    if tr.len() == 0 {
        s
    } else {
        spec_run(spec_step(s, tr[0]), tr.subrange(1, tr.len() as int))
    }
}

/// The state after a sequence of collision events within one tick.
pub open spec fn spec_run_events(s: MatchCore, events: Seq<Contact>) -> MatchCore
    decreases events.len(),
{
    if events.len() == 0 {
        s
    } else {
        spec_run_events(MatchCore::spec_on_event(s, events[0]), events.subrange(1, events.len() as int))
    }
}

/// Every step keeps a board well-formed.
pub proof fn lemma_step_preserves_inv(s: MatchCore, step: SimStep)
    requires
        s.inv(),
    ensures
        spec_step(s, step).inv(),
{
}

/// Repeated identical key-press edges are idempotent: pressing a direction
/// again without an intervening release leaves the held-input table exactly
/// as after the first press.
pub proof fn lemma_repeated_press_is_idempotent(s: MatchCore, right_force: bool, is_player1: bool)
    ensures
        MatchCore::spec_add_force(
            MatchCore::spec_add_force(s, right_force, is_player1),
            right_force,
            is_player1,
        ) == MatchCore::spec_add_force(s, right_force, is_player1),
{
}

/// A horizontal push is never commanded while the body already carries a
/// user force, so a held key cannot stack force on force.
pub proof fn lemma_push_needs_zero_force(s: MatchCore, is_player1: bool)
    ensures
        MatchCore::spec_control(s, is_player1, false) != ForceCmd::PushRight,
        MatchCore::spec_control(s, is_player1, false) != ForceCmd::PushLeft,
{
}

/// A ground contact in a live rally whose landing side touched the ball
/// last awards exactly one point, to the landing side's opponent, and marks
/// the rally's point as awarded.
pub proof fn lemma_point_scored(s: MatchCore, ball_left_of_net: bool)
    requires
        s.inv(),
        !s.points_added,
        s.ball_touch == !ball_left_of_net,
    ensures
        MatchCore::spec_on_event(s, Contact::Ground { ball_left_of_net }).points_added,
        ball_left_of_net ==> MatchCore::spec_on_event(
            s,
            Contact::Ground { ball_left_of_net },
        ).points1 == s.points1 + 1,
        ball_left_of_net ==> MatchCore::spec_on_event(
            s,
            Contact::Ground { ball_left_of_net },
        ).points2 == s.points2,
        !ball_left_of_net ==> MatchCore::spec_on_event(
            s,
            Contact::Ground { ball_left_of_net },
        ).points2 == s.points2 + 1,
        !ball_left_of_net ==> MatchCore::spec_on_event(
            s,
            Contact::Ground { ball_left_of_net },
        ).points1 == s.points1,
        MatchCore::spec_on_event(s, Contact::Ground { ball_left_of_net }).inv(),
{
}

/// While a rally's point is already awarded, no further collision event of
/// any kind changes either score, and the point stays marked until the
/// scheduled reset: scoring happens at most once per rally.
pub proof fn lemma_no_second_point_in_rally(s: MatchCore, events: Seq<Contact>)
    requires
        s.inv(),
        s.points_added,
    ensures
        spec_run_events(s, events).points1 == s.points1,
        spec_run_events(s, events).points2 == s.points2,
        spec_run_events(s, events).points_added,
        spec_run_events(s, events).inv(),
    decreases events.len(),
{
    if events.len() > 0 {
        lemma_no_second_point_in_rally(
            MatchCore::spec_on_event(s, events[0]),
            events.subrange(1, events.len() as int),
        );
    }
}

/// Once a rally's point is awarded, the whole remainder of the rally — any
/// steps whose ticks stay short of the scheduled reset frame, collision
/// events included — leaves both scores frozen and the point still marked:
/// a rally scores at most once, whatever touches the ground meanwhile.
pub proof fn lemma_rally_scores_frozen_until_reset(s: MatchCore, tr: Seq<SimStep>)
    requires
        s.inv(),
        s.points_added,
        s.frame_counter + tick_count(tr) < s.reset_frame,
    ensures
        spec_run(s, tr).points1 == s.points1,
        spec_run(s, tr).points2 == s.points2,
        spec_run(s, tr).points_added,
        spec_run(s, tr).reset_frame == s.reset_frame,
        s.frame_counter <= spec_run(s, tr).frame_counter,
        spec_run(s, tr).frame_counter <= s.frame_counter + tick_count(tr),
        spec_run(s, tr).inv(),
    decreases tr.len(),
{
    if tr.len() > 0 {
        let rest = tr.subrange(1, tr.len() as int);
        lemma_tick_count_nonneg(rest);
        assert(tick_count(tr) == (if tr[0] is BeginTick {
            1int
        } else {
            0int
        }) + tick_count(rest));
        lemma_step_preserves_inv(s, tr[0]);
        lemma_rally_scores_frozen_until_reset(spec_step(s, tr[0]), rest);
    }
}

/// Once either score reaches the point limit the game is over for good: no
/// step of any kind clears the flag, changes a score, or schedules a new
/// positional reset.
pub proof fn lemma_game_over_terminal(s: MatchCore, tr: Seq<SimStep>)
    requires
        s.inv(),
        s.game_over,
    ensures
        spec_run(s, tr).game_over,
        spec_run(s, tr).points1 == s.points1,
        spec_run(s, tr).points2 == s.points2,
        spec_run(s, tr).reset_frame == s.reset_frame,
        spec_run(s, tr).inv(),
    decreases tr.len(),
{
    if tr.len() > 0 {
        lemma_step_preserves_inv(s, tr[0]);
        lemma_game_over_terminal(spec_step(s, tr[0]), tr.subrange(1, tr.len() as int));
    }
}

/// Closing the tick that was scheduled for a pending point's reset emits
/// the reset action: players and ball return to their fixed start
/// coordinates with zero velocity, held inputs clear, the serve attribution
/// returns to the serving side, the ball's gravity is suppressed, and its
/// restore is scheduled a fixed number of frames out.
pub proof fn lemma_reset_at_scheduled_frame(s: MatchCore)
    requires
        s.inv(),
        s.frame_counter == s.reset_frame,
        s.points_added,
        !s.game_over,
    ensures
        MatchCore::spec_end_tick(s).1 == (EndAction::Reset { ball_for_player1: s.ball_for_1 }),
        !MatchCore::spec_end_tick(s).0.ball_gravity_on,
        MatchCore::spec_end_tick(s).0.enable_gravity_frame == s.frame_counter + GRAVITY_AFTER,
        !MatchCore::spec_end_tick(s).0.points_added,
        MatchCore::spec_end_tick(s).0.ball_touch == s.ball_for_1,
        !MatchCore::spec_end_tick(s).0.p1_left,
        !MatchCore::spec_end_tick(s).0.p1_right,
        !MatchCore::spec_end_tick(s).0.p2_left,
        !MatchCore::spec_end_tick(s).0.p2_right,
        MatchCore::spec_end_tick(s).0.inv(),
{
}

/// A trace in which no player touches the ball (the one thing that may
/// restore the ball's gravity before its scheduled frame).
pub open spec fn touch_free(tr: Seq<SimStep>) -> bool {
    forall|i: int|
        0 <= i < tr.len() ==> #[trigger] tr[i] != SimStep::Event(Contact::PlayerOne) && tr[i]
            != SimStep::Event(Contact::PlayerTwo)
}

/// How many ticks a trace begins.
pub open spec fn tick_count(tr: Seq<SimStep>) -> int
    decreases tr.len(),
{
    if tr.len() == 0 {
        0
    } else {
        (if tr[0] is BeginTick {
            1int
        } else {
            0int
        }) + tick_count(tr.subrange(1, tr.len() as int))
    }
}

/// After a reset, as long as no player touches the ball and fewer ticks
/// have begun than remain before the scheduled gravity frame, the ball's
/// gravity stays suppressed and the schedule stands. (A point awarded in
/// the window schedules its own reset no earlier than the gravity frame,
/// so nothing disturbs the window from within.)
pub proof fn lemma_gravity_off_until_scheduled_frame(s: MatchCore, tr: Seq<SimStep>)
    requires
        s.inv(),
        !s.ball_gravity_on,
        s.points_added ==> s.reset_frame >= s.enable_gravity_frame || s.game_over,
        s.enable_gravity_frame <= s.frame_counter + GRAVITY_AFTER,
        touch_free(tr),
        s.frame_counter + tick_count(tr) < s.enable_gravity_frame,
    ensures
        !spec_run(s, tr).ball_gravity_on,
        spec_run(s, tr).enable_gravity_frame == s.enable_gravity_frame,
        s.frame_counter <= spec_run(s, tr).frame_counter,
        spec_run(s, tr).frame_counter <= s.frame_counter + tick_count(tr),
        spec_run(s, tr).inv(),
    decreases tr.len(),
{
    if tr.len() > 0 {
        let rest = tr.subrange(1, tr.len() as int);
        lemma_tick_count_nonneg(rest);
        assert(tick_count(tr) == (if tr[0] is BeginTick {
            1int
        } else {
            0int
        }) + tick_count(rest));
        assert(tr[0] != SimStep::Event(Contact::PlayerOne) && tr[0] != SimStep::Event(
            Contact::PlayerTwo,
        ));
        assert forall|i: int|
            0 <= i < rest.len() implies #[trigger] rest[i] != SimStep::Event(Contact::PlayerOne)
            && rest[i] != SimStep::Event(Contact::PlayerTwo) by {
            assert(rest[i] == tr[i + 1]);
        }
        lemma_step_preserves_inv(s, tr[0]);
        lemma_gravity_off_until_scheduled_frame(spec_step(s, tr[0]), rest);
    }
}

/// A trace never begins a negative number of ticks.
pub proof fn lemma_tick_count_nonneg(tr: Seq<SimStep>)
    ensures
        tick_count(tr) >= 0,
    decreases tr.len(),
{
    if tr.len() > 0 {
        lemma_tick_count_nonneg(tr.subrange(1, tr.len() as int));
    }
}

/// Closing the tick scheduled for the gravity restore (when no reset is due
/// at the same frame) restores the ball's gravity and emits the action that
/// nudges the ball into play.
pub proof fn lemma_gravity_restored_at_scheduled_frame(s: MatchCore)
    requires
        s.inv(),
        s.frame_counter == s.enable_gravity_frame,
        !(s.frame_counter == s.reset_frame && s.points_added && !s.game_over),
    ensures
        MatchCore::spec_end_tick(s).0.ball_gravity_on,
        MatchCore::spec_end_tick(s).1 == EndAction::EnableGravity,
{
}

} // verus!
