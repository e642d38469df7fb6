//! Per-actor identity, movement state machine and velocity integration.
//!
//! Time is counted in simulation ticks: each simulated frame advances every
//! timer by exactly one tick. Speeds are in world units per second and are
//! turned into a per-tick displacement with the session's tick rate.
use vstd::prelude::*;
use crate::geometry::{Vec2, UNIT, div_trunc, div_trunc_exec, clamp_coord, clamp_coord_exec};

verus! {

/// Stable, totally ordered actor handle; also the index of the actor's
/// column in each frame's input set.
#[derive(Clone, Copy, PartialEq, Eq, Debug, Hash, PartialOrd, Ord, Structural)]
pub struct PlayerId {
    pub handle: usize,
}

#[derive(Clone, Copy, PartialEq, Eq, Debug, Hash, PartialOrd, Ord, Structural)]
pub struct TeamId {
    pub id: usize,
}

/// Hit points. Combat currently respawns a hit actor instead of reducing
/// them.
#[derive(Clone, Copy, PartialEq, Eq, Debug, Structural)]
pub struct Health {
    pub max_health: u32,
    pub current_health: u32,
}

/// The handle of the actor this peer controls.
#[derive(Clone, Copy, PartialEq, Eq, Debug, Structural)]
pub struct LocalPlayer {
    pub handle_id: usize,
}

/// Movement state. `Dashing` carries the ticks spent dashing so far and the
/// direction locked at its start.
#[derive(Clone, Copy, PartialEq, Eq, Debug, Structural)]
pub enum MovementState {
    Dashing { elapsed: u32, direction: Vec2 },
    Walking,
    Idle,
}

#[derive(Clone, Copy, PartialEq, Eq, Debug, Structural)]
pub struct PlayerMovementState {
    pub can_dash: bool,
    /// Ticks accumulated toward the next dash while `can_dash` is false.
    pub dash_cooldown: u32,
    pub movement_state: MovementState,
}

/// Movement tuning. `speed` is in world units per second, `dash_power`
/// multiplies it while dashing, durations are in ticks.
#[derive(Clone, Copy, PartialEq, Eq, Debug, Structural)]
pub struct PlayerMovementStats {
    pub speed: u32,
    pub dash_power: u32,
    pub dash_duration: u32,
    pub dash_cooldown_length: u32,
}

/// Movement intent of the last frame: the requested direction at length
/// `UNIT`, or zero.
#[derive(Clone, Copy, PartialEq, Eq, Debug, Structural)]
pub struct Movement {
    pub velocity: Vec2,
}

/// Which animation presentation should play for an actor.
#[derive(Clone, Copy, PartialEq, Eq, Debug, Structural)]
pub enum AnimationState {
    Dash,
    Run,
    Idle,
}

impl MovementState {
    pub open spec fn is_dashing(self) -> bool {
        self is Dashing
    }
}

impl Movement {
    pub fn new() -> (r: Movement)
        ensures
            r.velocity.is_zero(),
    {
        Movement { velocity: Vec2::zero() }
    }
}

impl PlayerMovementState {
    /// The state an actor starts a round in: idle, with a dash ready.
    pub fn new() -> (r: PlayerMovementState)
        ensures
            r == (PlayerMovementState { can_dash: true, dash_cooldown: 0, movement_state: MovementState::Idle }),
    {
        PlayerMovementState { can_dash: true, dash_cooldown: 0, movement_state: MovementState::Idle }
    }
}

/// Movement intent: a dash starts when it is requested and allowed;
/// otherwise a non-dashing actor walks when a direction is requested and
/// idles when none is.
pub open spec fn intent_spec(s: PlayerMovementState, direction: Vec2, dash: bool) -> PlayerMovementState {
    if dash && s.can_dash {
        PlayerMovementState {
            can_dash: false,
            movement_state: MovementState::Dashing { elapsed: 0, direction: direction.normalized() },
            ..s
        }
    } else if s.movement_state.is_dashing() {
        s
    } else if direction.is_zero() {
        PlayerMovementState { movement_state: MovementState::Idle, ..s }
    } else {
        PlayerMovementState { movement_state: MovementState::Walking, ..s }
    }
}

/// The dash timer: a dash ends once its elapsed ticks reach the dash
/// duration; outside a dash the cooldown accumulates until it reaches its
/// length, which makes a dash available again and resets the cooldown; the
/// cooldown of an actor with a dash available is 0.
pub open spec fn dash_timer_spec(s: PlayerMovementState, stats: PlayerMovementStats) -> PlayerMovementState {
    match s.movement_state {
        MovementState::Dashing { elapsed, direction } => {
            if elapsed + 1 >= stats.dash_duration {
                PlayerMovementState { movement_state: MovementState::Idle, ..s }
            } else {
                PlayerMovementState {
                    movement_state: MovementState::Dashing { elapsed: (elapsed + 1) as u32, direction },
                    ..s
                }
            }
        },
        _ => {
            if s.can_dash {
                PlayerMovementState { dash_cooldown: 0, ..s }
            } else if s.dash_cooldown + 1 >= stats.dash_cooldown_length {
                PlayerMovementState { can_dash: true, dash_cooldown: 0, ..s }
            } else {
                PlayerMovementState { dash_cooldown: (s.dash_cooldown + 1) as u32, ..s }
            }
        },
    }
}

/// What one frame does to the movement state: intent, then the dash timer.
pub open spec fn movement_frame(
    s: PlayerMovementState,
    stats: PlayerMovementStats,
    direction: Vec2,
    dash: bool,
) -> PlayerMovementState {
    dash_timer_spec(intent_spec(s, direction, dash), stats)
}

/// Displacement along one axis during one tick: the locked direction at
/// dash speed while dashing, otherwise the last velocity at walking speed
/// (an idle actor keeps drifting along any residual velocity).
pub open spec fn step_spec(
    stats: PlayerMovementStats,
    state: MovementState,
    velocity_component: int,
    dash_component: int,
    fps: int,
) -> int {
    if state.is_dashing() {
        div_trunc(dash_component * stats.speed * stats.dash_power, fps)
    } else {
        div_trunc(velocity_component * stats.speed, fps)
    }
}

/// The position after one tick of velocity integration.
pub open spec fn integrate_spec(
    position: Vec2,
    stats: PlayerMovementStats,
    state: MovementState,
    movement: Movement,
    fps: int,
) -> Vec2 {
    let d = match state {
        MovementState::Dashing { direction, .. } => direction,
        _ => Vec2 { x: 0, y: 0 },
    };
    Vec2 {
        x: clamp_coord(position.x + step_spec(stats, state, movement.velocity.x as int, d.x as int, fps)) as i64,
        y: clamp_coord(position.y + step_spec(stats, state, movement.velocity.y as int, d.y as int, fps)) as i64,
    }
}

pub open spec fn animation_for(s: MovementState) -> AnimationState {
    match s {
        MovementState::Dashing { .. } => AnimationState::Dash,
        MovementState::Walking => AnimationState::Run,
        MovementState::Idle => AnimationState::Idle,
    }
}

/// Applies one frame's movement intent: `direction` is the requested
/// (unnormalized) direction, `dash` the dash action bit.
pub fn apply_intent(state: &mut PlayerMovementState, direction: Vec2, dash: bool)
    requires
        direction.in_bounds(),
    ensures
        *final(state) == intent_spec(*old(state), direction, dash),
{
    if dash && state.can_dash {
        state.movement_state = MovementState::Dashing { elapsed: 0, direction: direction.normalize_or_zero() };
        state.can_dash = false;
    } else if let MovementState::Dashing { .. } = state.movement_state {
    } else if direction.x == 0 && direction.y == 0 {
        state.movement_state = MovementState::Idle;
    } else {
        state.movement_state = MovementState::Walking;
    }
}

/// Advances the dash timer and the dash cooldown by one tick.
pub fn tick_dash(state: &mut PlayerMovementState, stats: &PlayerMovementStats)
    ensures
        *final(state) == dash_timer_spec(*old(state), *stats),
{
    match state.movement_state {
        MovementState::Dashing { elapsed, direction } => {
            if elapsed as u64 + 1 >= stats.dash_duration as u64 {
                state.movement_state = MovementState::Idle;
            } else {
                state.movement_state = MovementState::Dashing { elapsed: elapsed + 1, direction };
            }
        },
        _ => {
            if state.can_dash {
                state.dash_cooldown = 0;
            } else if state.dash_cooldown as u64 + 1 >= stats.dash_cooldown_length as u64 {
                state.can_dash = true;
                state.dash_cooldown = 0;
            } else {
                state.dash_cooldown = state.dash_cooldown + 1;
            }
        },
    }
}

fn axis_step(stats: &PlayerMovementStats, dashing: bool, velocity_component: i64, dash_component: i64, fps: u32) -> (r: i128)
    requires
        fps > 0,
        -UNIT <= velocity_component <= UNIT,
        -UNIT <= dash_component <= UNIT,
    ensures
        dashing ==> r == div_trunc(dash_component * stats.speed * stats.dash_power, fps as int),
        !dashing ==> r == div_trunc(velocity_component * stats.speed, fps as int),
        -0x1_0000_0000_0000_0000_0000_0000 <= r <= 0x1_0000_0000_0000_0000_0000_0000,
{
    let speed = stats.speed as i128;
    let power = stats.dash_power as i128;
    let num: i128 = if dashing {
        proof {
            assert(-0x1_0000_0000_0000_0000_0000_0000 <= dash_component * speed * power <= 0x1_0000_0000_0000_0000_0000_0000)
                by (nonlinear_arith)
                requires -1000 <= dash_component <= 1000, 0 <= speed < 0x1_0000_0000, 0 <= power < 0x1_0000_0000;
            assert(-0x1_0000_0000_0000 <= dash_component * speed <= 0x1_0000_0000_0000) by (nonlinear_arith)
                requires -1000 <= dash_component <= 1000, 0 <= speed < 0x1_0000_0000;
        }
        dash_component as i128 * speed * power
    } else {
        proof {
            assert(-0x1_0000_0000_0000_0000_0000_0000 <= velocity_component * speed <= 0x1_0000_0000_0000_0000_0000_0000)
                by (nonlinear_arith)
                requires -1000 <= velocity_component <= 1000, 0 <= speed < 0x1_0000_0000;
        }
        velocity_component as i128 * speed
    };
    let r = div_trunc_exec(num, fps as i128);
    proof {
        let f = fps as int;
        if num >= 0 {
            vstd::arithmetic::div_mod::lemma_div_pos_is_pos(num as int, f);
            vstd::arithmetic::div_mod::lemma_div_is_ordered_by_denominator(num as int, 1, f);
        } else {
            vstd::arithmetic::div_mod::lemma_div_pos_is_pos(-num, f);
            vstd::arithmetic::div_mod::lemma_div_is_ordered_by_denominator(-num, 1, f);
        }
    }
    r
}

/// Moves `position` by one tick of the actor's velocity; the result stays
/// within the world bounds.
pub fn integrate_position(
    position: Vec2,
    stats: &PlayerMovementStats,
    state: &MovementState,
    movement: &Movement,
    fps: u32,
) -> (r: Vec2)
    requires
        fps > 0,
        position.in_bounds(),
        -UNIT <= movement.velocity.x <= UNIT,
        -UNIT <= movement.velocity.y <= UNIT,
        state matches MovementState::Dashing { direction, .. } ==> (-UNIT <= direction.x <= UNIT && -UNIT
            <= direction.y <= UNIT),
    ensures
        r == integrate_spec(position, *stats, *state, *movement, fps as int),
        r.in_bounds(),
{
    let (dashing, d) = match state {
        MovementState::Dashing { direction, .. } => (true, *direction),
        _ => (false, Vec2::zero()),
    };
    let sx = axis_step(stats, dashing, movement.velocity.x, d.x, fps);
    let sy = axis_step(stats, dashing, movement.velocity.y, d.y, fps);
    let x = clamp_coord_exec(position.x as i128 + sx);
    let y = clamp_coord_exec(position.y as i128 + sy);
    Vec2 { x, y }
}

/// Sets the animation presentation should play for the movement state;
/// returns whether it changed.
pub fn update_animation_state(state: &PlayerMovementState, animation: &mut AnimationState) -> (changed: bool)
    ensures
        *final(animation) == animation_for(state.movement_state),
        changed == (*old(animation) != animation_for(state.movement_state)),
{
    let target = match state.movement_state {
        MovementState::Dashing { .. } => AnimationState::Dash,
        MovementState::Walking => AnimationState::Run,
        MovementState::Idle => AnimationState::Idle,
    };
    let changed = *animation != target;
    *animation = target;
    changed
}

/// A dashing actor has no dash available.
pub open spec fn dash_consistent(s: PlayerMovementState) -> bool {
    s.movement_state.is_dashing() ==> !s.can_dash
}

/// Dash gating. Over any frame from a consistent state: the state stays
/// consistent; a dash in progress is never restarted, only continued with
/// its direction and one more tick until its elapsed ticks reach the dash
/// duration, when it ends; a dash starts only when one was available; and a
/// dash becomes available again only in a frame that did not begin in a
/// dash and whose cooldown reached the cooldown length.
pub proof fn lemma_dash_gating(s: PlayerMovementState, stats: PlayerMovementStats, direction: Vec2, dash: bool)
    requires
        dash_consistent(s),
    ensures
        dash_consistent(movement_frame(s, stats, direction, dash)),
        s.movement_state matches MovementState::Dashing { elapsed, direction: locked } ==> (
            if elapsed + 1 >= stats.dash_duration {
                movement_frame(s, stats, direction, dash).movement_state == MovementState::Idle
            } else {
                movement_frame(s, stats, direction, dash).movement_state == (MovementState::Dashing {
                    elapsed: (elapsed + 1) as u32,
                    direction: locked,
                })
            }),
        (movement_frame(s, stats, direction, dash).movement_state.is_dashing() && !s.movement_state.is_dashing())
            ==> s.can_dash,
        (movement_frame(s, stats, direction, dash).can_dash && !s.can_dash) ==> (!s.movement_state.is_dashing()
            && s.dash_cooldown + 1 >= stats.dash_cooldown_length),
{
}

/// The movement state after the first `k` frames of `inputs` (requested
/// direction and dash bit of each frame).
pub open spec fn movement_run(
    s: PlayerMovementState,
    stats: PlayerMovementStats,
    inputs: Seq<(Vec2, bool)>,
    k: nat,
) -> PlayerMovementState
    decreases k,
{
    if k == 0 {
        s
    } else {
        let prev = movement_run(s, stats, inputs, (k - 1) as nat);
        movement_frame(prev, stats, inputs[k - 1].0, inputs[k - 1].1)
    }
}

pub open spec fn at_least_one(v: int) -> int {
    if v < 1 {
        1
    } else {
        v
    }
}

/// Frames until a dash is available again: the rest of a dash in progress
/// (at least one frame), then the rest of the cooldown (at least one frame).
pub open spec fn dash_wait(s: PlayerMovementState, stats: PlayerMovementStats) -> int {
    if s.can_dash {
        0
    } else {
        let cooldown = at_least_one(stats.dash_cooldown_length - s.dash_cooldown);
        match s.movement_state {
            MovementState::Dashing { elapsed, .. } => at_least_one(stats.dash_duration - elapsed) + cooldown,
            _ => cooldown,
        }
    }
}

proof fn lemma_dash_wait_step(s: PlayerMovementState, stats: PlayerMovementStats, direction: Vec2, dash: bool)
    requires
        !s.can_dash,
    ensures
        movement_frame(s, stats, direction, dash).can_dash <==> dash_wait(s, stats) == 1,
        !movement_frame(s, stats, direction, dash).can_dash ==> dash_wait(movement_frame(s, stats, direction, dash), stats)
            == dash_wait(s, stats) - 1,
{
}

proof fn lemma_dash_wait_run(s: PlayerMovementState, stats: PlayerMovementStats, inputs: Seq<(Vec2, bool)>, k: nat)
    requires
        !s.can_dash,
        k < dash_wait(s, stats),
    ensures
        !movement_run(s, stats, inputs, k).can_dash,
        dash_wait(movement_run(s, stats, inputs, k), stats) == dash_wait(s, stats) - k,
    decreases k,
{
    if k > 0 {
        lemma_dash_wait_run(s, stats, inputs, (k - 1) as nat);
        let prev = movement_run(s, stats, inputs, (k - 1) as nat);
        lemma_dash_wait_step(prev, stats, inputs[k - 1].0, inputs[k - 1].1);
    }
}

/// Once a dash has begun, no new dash begins until it has run its course
/// and the cooldown has elapsed: whatever the inputs, for the first
/// `dash_wait` frames after a state without a dash available, no dash is
/// available at the start of a frame, so none can start; in the frame that
/// begins a dash, the wait is the dash's duration (at least one frame) plus
/// the cooldown (at least one frame).
pub proof fn lemma_no_dash_during_wait(
    s: PlayerMovementState,
    stats: PlayerMovementStats,
    inputs: Seq<(Vec2, bool)>,
    k: nat,
)
    requires
        !s.can_dash,
        k < dash_wait(s, stats),
    ensures
        !movement_run(s, stats, inputs, k).can_dash,
        !intent_spec(movement_run(s, stats, inputs, k), inputs[k as int].0, inputs[k as int].1).movement_state.is_dashing()
            || movement_run(s, stats, inputs, k).movement_state.is_dashing(),
{
    lemma_dash_wait_run(s, stats, inputs, k);
}

/// The frame that starts a dash leaves the actor waiting for the whole dash
/// and the whole cooldown before the next one.
pub proof fn lemma_dash_start_wait(s: PlayerMovementState, stats: PlayerMovementStats, direction: Vec2)
    requires
        s.can_dash,
        s.dash_cooldown == 0,
    ensures
        !movement_frame(s, stats, direction, true).can_dash,
        dash_wait(movement_frame(s, stats, direction, true), stats) == (if stats.dash_duration <= 1 {
            0int
        } else {
            at_least_one(stats.dash_duration - 1)
        }) + at_least_one(stats.dash_cooldown_length as int),
{
}

} // verus!
